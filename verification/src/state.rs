//! The whole persisted application state, and the small operator and
//! sticker bookkeeping that edits it.

use vstd::prelude::*;

use crate::models::{
    BackgroundMode, BackgroundSettings, BackgroundView, Contact, ContactView, Operator,
    OperatorView, ProfileView, UserProfile,
};
use crate::store::{MessageStore, StoreView};
use crate::util::{spec_trim, trim_spaces};
use vstd::string::StringExecFnsIsAscii;

verus! {

/// Everything the application persists: the user profile, the contact
/// list, the per-contact message lists, the participant list, the
/// sticker list, the background settings, the update-snooze date and
/// the tutorial flag.
pub struct AppState {
    pub user_profile: UserProfile,
    pub contacts: Vec<Contact>,
    pub messages: MessageStore,
    pub operators: Vec<Operator>,
    pub stickers: Vec<String>,
    pub background: BackgroundSettings,
    pub update_snooze_date: Option<String>,
    pub hide_tutorial: bool,
}

/// Mathematical view of the whole application state.
#[verifier::ext_equal]
pub ghost struct StateView {
    pub user_profile: ProfileView,
    pub contacts: Seq<ContactView>,
    pub messages: StoreView,
    pub operators: Seq<OperatorView>,
    pub stickers: Seq<Seq<char>>,
    pub background: BackgroundView,
    pub update_snooze_date: Option<Seq<char>>,
    pub hide_tutorial: bool,
}

impl View for AppState {
    type V = StateView;

    open spec fn view(&self) -> StateView {
        StateView {
            user_profile: self.user_profile@,
            contacts: self.contacts.deep_view(),
            messages: self.messages@,
            operators: self.operators.deep_view(),
            stickers: self.stickers.deep_view(),
            background: self.background@,
            update_snooze_date: self.update_snooze_date.deep_view(),
            hide_tutorial: self.hide_tutorial,
        }
    }
}

impl Default for AppState {
    /// An empty state: the default profile, no contacts, no messages,
    /// no operators, no stickers, the default background, no snooze
    /// date and the tutorial link shown.
    fn default() -> (r: Self)
        ensures
            r@.user_profile.id == 0,
            r@.user_profile.name == "Me"@,
            r@.contacts == Seq::<ContactView>::empty(),
            r@.messages.entries == Seq::<crate::store::EntryView>::empty(),
            r@.messages.next_id == 1,
            crate::store::store_wf(r@.messages),
            r@.operators == Seq::<OperatorView>::empty(),
            r@.stickers == Seq::<Seq<char>>::empty(),
            r@.background.mode == BackgroundMode::DotDark,
            r@.update_snooze_date is None,
            !r@.hide_tutorial,
    {
        let r = AppState {
            user_profile: UserProfile::default(),
            contacts: Vec::new(),
            messages: MessageStore::new(),
            operators: Vec::new(),
            stickers: Vec::new(),
            background: BackgroundSettings::default(),
            update_snooze_date: None,
            hide_tutorial: false,
        };
        proof {
            assert(r@.contacts =~= Seq::<ContactView>::empty());
            assert(r@.operators =~= Seq::<OperatorView>::empty());
            assert(r@.stickers =~= Seq::<Seq<char>>::empty());
        }
        r
    }
}

impl AppState {
    /// Adds a participant under a fresh identifier and hands the
    /// identifier back.
    pub fn add_operator(&mut self, name: String, avatar_url: String) -> (new_id: u64)
        requires
            old(self).messages.wf(),
            old(self).messages.can_assign_id(),
        ensures
            final(self).messages.wf(),
            new_id == old(self)@.messages.next_id,
            final(self)@.messages.next_id == old(self)@.messages.next_id + 1,
            final(self)@.messages.entries == old(self)@.messages.entries,
            final(self)@.operators == old(self)@.operators.push(
                OperatorView { id: new_id, name: name@, avatar_url: avatar_url@ },
            ),
            final(self)@ == (StateView {
                messages: final(self)@.messages,
                operators: final(self)@.operators,
                ..old(self)@
            }),
    {
        let new_id = self.messages.assign_id();
        let op = Operator { id: new_id, name, avatar_url };
        let ghost opv = op@;
        self.operators.push(op);
        proof {
            assert(self@.operators =~= old(self)@.operators.push(opv));
        }
        new_id
    }

    /// Removes every participant carrying this identifier.
    pub fn delete_operator(&mut self, id: u64)
        ensures
            final(self)@.operators == old(self)@.operators.filter(
                |o: OperatorView| o.id != id,
            ),
            final(self)@ == (StateView { operators: final(self)@.operators, ..old(self)@ }),
    {
        let mut out: Vec<Operator> = Vec::new();
        let n = self.operators.len();
        proof {
            assert(self@.operators.take(0) =~= Seq::<OperatorView>::empty());
            reveal(Seq::filter);
        }
        for i in 0..n
            invariant
                n == self.operators.len(),
                out.deep_view() == self.operators.deep_view().take(i as int).filter(
                    |o: OperatorView| o.id != id,
                ),
        {
            let ghost prefix = self.operators.deep_view().take(i as int);
            let ghost prefix1 = self.operators.deep_view().take(i + 1);
            if self.operators[i].id != id {
                out.push(self.operators[i].clone_op());
            }
            proof {
                reveal(Seq::filter);
                assert(prefix1.drop_last() =~= prefix);
                assert(prefix1.last() == self.operators.deep_view()[i as int]);
                assert(prefix1.filter(|o: OperatorView| o.id != id) == if (self.operators.deep_view()[i as int].id
                    != id) {
                    prefix.filter(|o: OperatorView| o.id != id).push(
                        self.operators.deep_view()[i as int],
                    )
                } else {
                    prefix.filter(|o: OperatorView| o.id != id)
                });
                assert(out.deep_view() =~= prefix1.filter(|o: OperatorView| o.id != id));
            }
        }
        proof {
            assert(self.operators.deep_view().take(n as int) =~= self.operators.deep_view());
        }
        self.operators = out;
    }

    /// Renames the first participant carrying this identifier and, when
    /// a contact shares the identifier, keeps the contact's display
    /// name and avatar in step.
    pub fn update_operator(&mut self, id: u64, name: String, avatar_url: String)
        ensures
            ({
                let ops = old(self)@.operators;
                if exists|i: int| 0 <= i < ops.len() && ops[i].id == id {
                    final(self)@.operators == ops.update(
                        first_op_index(ops, id),
                        OperatorView { id, name: name@, avatar_url: avatar_url@ },
                    )
                } else {
                    final(self)@.operators == ops
                }
            }),
            ({
                let cs = old(self)@.contacts;
                if exists|i: int| 0 <= i < cs.len() && cs[i].id == id {
                    final(self)@.contacts == cs.update(
                        first_contact_index(cs, id),
                        ContactView { name: name@, avatar_url: avatar_url@, ..cs[first_contact_index(cs, id)] },
                    )
                } else {
                    final(self)@.contacts == cs
                }
            }),
            final(self)@ == (StateView {
                operators: final(self)@.operators,
                contacts: final(self)@.contacts,
                ..old(self)@
            }),
    {
        self.rename_operator_slot(id, &name, &avatar_url);
        self.rename_contact_slot(id, &name, &avatar_url);
    }

    /// Renames the first participant carrying this identifier; absent
    /// identifiers leave the list untouched.
    fn rename_operator_slot(&mut self, id: u64, name: &String, avatar_url: &String)
        ensures
            ({
                let ops = old(self)@.operators;
                if exists|i: int| 0 <= i < ops.len() && ops[i].id == id {
                    final(self)@.operators == ops.update(
                        first_op_index(ops, id),
                        OperatorView { id, name: name@, avatar_url: avatar_url@ },
                    )
                } else {
                    final(self)@.operators == ops
                }
            }),
            final(self)@ == (StateView { operators: final(self)@.operators, ..old(self)@ }),
    {
        let n = self.operators.len();
        let mut done = false;
        let ghost ops0 = self@.operators;
        for i in 0..n
            invariant
                n == self.operators.len(),
                ops0 == old(self)@.operators,
                self@ == (StateView { operators: self@.operators, ..old(self)@ }),
                !done ==> self@.operators == ops0 && (forall|k: int|
                    0 <= k < i ==> ops0[k].id != id),
                done ==> (exists|k: int| 0 <= k < ops0.len() && ops0[k].id == id)
                    && self@.operators == ops0.update(
                    first_op_index(ops0, id),
                    OperatorView { id, name: name@, avatar_url: avatar_url@ },
                ),
        {
            if !done && self.operators[i].id == id {
                let mut op = self.operators.remove(i);
                op.name = name.clone();
                op.avatar_url = avatar_url.clone();
                self.operators.insert(i, op);
                done = true;
                proof {
                    assert(ops0[i as int].id == id);
                    let j = first_op_index(ops0, id);
                    assert(0 <= j < ops0.len() && ops0[j].id == id && (forall|k: int|
                        0 <= k < j ==> ops0[k].id != id)) by {
                        assert(0 <= i < ops0.len() && ops0[i as int].id == id && (forall|k: int|
                            0 <= k < i ==> ops0[k].id != id));
                    }
                    assert(j == i);
                    assert(self@.operators =~= ops0.update(
                        i as int,
                        OperatorView { id, name: name@, avatar_url: avatar_url@ },
                    ));
                }
            }
        }
        proof {
            if !done {
                assert forall|k: int| 0 <= k < ops0.len() implies ops0[k].id != id by {}
            }
        }
    }

    /// Renames the first contact carrying this identifier; absent
    /// identifiers leave the list untouched.
    fn rename_contact_slot(&mut self, id: u64, name: &String, avatar_url: &String)
        ensures
            ({
                let cs = old(self)@.contacts;
                if exists|i: int| 0 <= i < cs.len() && cs[i].id == id {
                    final(self)@.contacts == cs.update(
                        first_contact_index(cs, id),
                        ContactView {
                            name: name@,
                            avatar_url: avatar_url@,
                            ..cs[first_contact_index(cs, id)]
                        },
                    )
                } else {
                    final(self)@.contacts == cs
                }
            }),
            final(self)@ == (StateView { contacts: final(self)@.contacts, ..old(self)@ }),
    {
        let m = self.contacts.len();
        let mut cdone = false;
        let ghost cs0 = self@.contacts;
        for i in 0..m
            invariant
                m == self.contacts.len(),
                cs0 == old(self)@.contacts,
                self@ == (StateView { contacts: self@.contacts, ..old(self)@ }),
                !cdone ==> self@.contacts == cs0 && (forall|k: int|
                    0 <= k < i ==> cs0[k].id != id),
                cdone ==> (exists|k: int| 0 <= k < cs0.len() && cs0[k].id == id)
                    && self@.contacts == cs0.update(
                    first_contact_index(cs0, id),
                    ContactView {
                        name: name@,
                        avatar_url: avatar_url@,
                        ..cs0[first_contact_index(cs0, id)]
                    },
                ),
        {
            if !cdone && self.contacts[i].id == id {
                let mut c = self.contacts.remove(i);
                let ghost c0 = c@;
                c.name = name.clone();
                c.avatar_url = avatar_url.clone();
                self.contacts.insert(i, c);
                cdone = true;
                proof {
                    assert(cs0[i as int].id == id);
                    let j = first_contact_index(cs0, id);
                    assert(0 <= j < cs0.len() && cs0[j].id == id && (forall|k: int|
                        0 <= k < j ==> cs0[k].id != id)) by {
                        assert(0 <= i < cs0.len() && cs0[i as int].id == id && (forall|k: int|
                            0 <= k < i ==> cs0[k].id != id));
                    }
                    assert(j == i);
                    assert(c0 == cs0[i as int]);
                    assert(self@.contacts =~= cs0.update(
                        i as int,
                        ContactView { name: name@, avatar_url: avatar_url@, ..cs0[i as int] },
                    ));
                }
            }
        }
        proof {
            if !cdone {
                assert forall|k: int| 0 <= k < cs0.len() implies cs0[k].id != id by {}
            }
        }
    }

    /// Remembers a sticker. The source is trimmed first; an empty
    /// sticker, or one already in the list, is ignored.
    pub fn add_sticker(&mut self, content: &str)
        ensures
            spec_trim(content@).len() == 0 ==> *final(self) == *old(self),
            spec_trim(content@).len() > 0 && (exists|i: int|
                0 <= i < old(self)@.stickers.len() && old(self)@.stickers[i] == spec_trim(
                    content@,
                )) ==> *final(self) == *old(self),
            spec_trim(content@).len() > 0 && !(exists|i: int|
                0 <= i < old(self)@.stickers.len() && old(self)@.stickers[i] == spec_trim(
                    content@,
                )) ==> final(self)@.stickers == old(self)@.stickers.push(spec_trim(content@))
                && final(self)@ == (StateView { stickers: final(self)@.stickers, ..old(self)@ }),
    {
        let trimmed = trim_spaces(content);
        if trimmed.as_str().is_empty() {
            return ;
        }
        self.push_sticker_unique(trimmed);
    }

    /// Remembers an already-trimmed, non-empty sticker unless it is in
    /// the list already.
    fn push_sticker_unique(&mut self, sticker: String)
        ensures
            (exists|i: int|
                0 <= i < old(self)@.stickers.len() && old(self)@.stickers[i] == sticker@)
                ==> *final(self) == *old(self),
            !(exists|i: int|
                0 <= i < old(self)@.stickers.len() && old(self)@.stickers[i] == sticker@)
                ==> final(self)@.stickers == old(self)@.stickers.push(sticker@) && final(self)@
                == (StateView { stickers: final(self)@.stickers, ..old(self)@ }),
    {
        let ghost sv = sticker@;
        let n = self.stickers.len();
        for i in 0..n
            invariant
                *self == *old(self),
                sv == sticker@,
                n == self.stickers.len(),
                forall|k: int| 0 <= k < i ==> self@.stickers[k] != sv,
        {
            if self.stickers[i].eq(&sticker) {
                proof {
                    assert(old(self)@.stickers[i as int] == sv);
                }
                return ;
            }
        }
        let ghost st0 = self@.stickers;
        self.stickers.push(sticker);
        proof {
            assert(self@.stickers =~= st0.push(sv));
        }
    }
}

/// The position of the first operator carrying this identifier;
/// meaningful only when one exists.
pub open spec fn first_op_index(ops: Seq<OperatorView>, id: u64) -> int {
    choose|i: int|
        0 <= i < ops.len() && ops[i].id == id && (forall|k: int| 0 <= k < i ==> ops[k].id != id)
}

/// The position of the first contact carrying this identifier;
/// meaningful only when one exists.
pub open spec fn first_contact_index(cs: Seq<ContactView>, id: u64) -> int {
    choose|i: int|
        0 <= i < cs.len() && cs[i].id == id && (forall|k: int| 0 <= k < i ==> cs[k].id != id)
}

impl Operator {
    /// Copies the participant; the copy has the same view.
    pub fn clone_op(&self) -> (r: Self)
        ensures
            r@ == self@,
    {
        Operator {
            id: self.id,
            name: self.name.clone(),
            avatar_url: self.avatar_url.clone(),
        }
    }
}

} // verus!

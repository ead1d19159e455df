//! Migration of the legacy persisted format: numeric identifiers, one
//! sender per message, no reactions, no stickers. Fresh unique
//! identifiers are generated from the store's counter and every
//! numeric reference is remapped; the legacy sender 0 stands for the
//! user.

use vstd::prelude::*;

use crate::models::{
    BackgroundSettings, ChatHeadStyle, Contact, ContactView, Message, MessageKind, Operator,
    OperatorView, UserProfile,
};
use crate::state::{AppState, StateView};
use crate::store::{
    spec_has_contact, spec_msgs_of, store_wf, MessageStore, StoreView,
};

verus! {

/// A contact of the legacy format: a numeric identifier.
pub struct LegacyContact {
    pub id: u64,
    pub unread_count: usize,
    pub chat_head_style: ChatHeadStyle,
}

/// A message of the legacy format: numeric identifiers, a timestamp
/// that the current format no longer keeps, no kind and no reactions.
pub struct LegacyMessage {
    pub id: u64,
    pub sender_id: u64,
    pub content: String,
    pub timestamp: String,
    pub animate: bool,
}

/// A participant of the legacy format.
pub struct LegacyOperator {
    pub id: u64,
    pub name: String,
    pub avatar_url: String,
}

/// The user profile of the legacy format, which carried no identifier.
pub struct LegacyUserProfile {
    pub name: String,
    pub avatar_url: String,
}

/// The whole legacy state; the per-contact message lists come as a
/// list of pairs keyed by distinct numeric contact identifiers.
pub struct LegacyAppState {
    pub user_profile: LegacyUserProfile,
    pub contacts: Vec<LegacyContact>,
    pub messages: Vec<(u64, Vec<LegacyMessage>)>,
    pub operators: Vec<LegacyOperator>,
    pub background: BackgroundSettings,
}

/// Mathematical view of a legacy message.
#[verifier::ext_equal]
pub ghost struct LegacyMessageView {
    pub id: u64,
    pub sender_id: u64,
    pub content: Seq<char>,
    pub timestamp: Seq<char>,
    pub animate: bool,
}

impl View for LegacyMessage {
    type V = LegacyMessageView;

    open spec fn view(&self) -> LegacyMessageView {
        LegacyMessageView {
            id: self.id,
            sender_id: self.sender_id,
            content: self.content@,
            timestamp: self.timestamp@,
            animate: self.animate,
        }
    }
}

impl DeepView for LegacyMessage {
    type V = LegacyMessageView;

    open spec fn deep_view(&self) -> LegacyMessageView {
        self.view()
    }
}

/// Whether the map holds this key.
pub open spec fn map_has(m: Seq<(u64, u64)>, k: u64) -> bool
    decreases m.len(),
{
    if m.len() == 0 {
        false
    } else if m.last().0 == k {
        true
    } else {
        map_has(m.drop_last(), k)
    }
}

/// The value the map holds for this key; the last insertion wins, as
/// in the hash map the legacy loader used.
pub open spec fn map_get(m: Seq<(u64, u64)>, k: u64) -> u64
    decreases m.len(),
{
    if m.len() == 0 {
        0
    } else if m.last().0 == k {
        m.last().1
    } else {
        map_get(m.drop_last(), k)
    }
}

/// All values of the map are below `bound`.
pub open spec fn map_vals_below(m: Seq<(u64, u64)>, bound: u64) -> bool {
    forall|i: int| 0 <= i < m.len() ==> (#[trigger] m[i]).1 < bound
}

/// No two entries of the map share a value.
pub open spec fn map_vals_distinct(m: Seq<(u64, u64)>) -> bool {
    forall|i: int, j: int| 0 <= i < j < m.len() ==> (#[trigger] m[i]).1 != (#[trigger] m[j]).1
}

/// Growing the map only by absent keys leaves every present key's
/// image as it was.
pub open spec fn map_preserves(a: Seq<(u64, u64)>, b: Seq<(u64, u64)>) -> bool {
    forall|k: u64| #[trigger] map_has(a, k) ==> map_has(b, k) && map_get(b, k) == map_get(a, k)
}

/// Preservation chains.
proof fn lemma_preserves_trans(a: Seq<(u64, u64)>, b: Seq<(u64, u64)>, c: Seq<(u64, u64)>)
    requires
        map_preserves(a, b),
        map_preserves(b, c),
    ensures
        map_preserves(a, c),
{
    assert forall|k: u64| #[trigger] map_has(a, k) implies map_has(c, k) && map_get(c, k)
        == map_get(a, k) by {
        assert(map_has(b, k));
    }
}

/// The value held for a present key is the value of one of the
/// entries carrying that key.
proof fn lemma_map_get_witness(m: Seq<(u64, u64)>, k: u64) -> (i: int)
    requires
        map_has(m, k),
    ensures
        0 <= i < m.len(),
        m[i].0 == k,
        m[i].1 == map_get(m, k),
    decreases m.len(),
{
    if m.last().0 == k {
        m.len() - 1
    } else {
        let i = lemma_map_get_witness(m.drop_last(), k);
        assert(m.drop_last()[i] == m[i]);
        i
    }
}

/// With pairwise distinct values, distinct keys map to distinct
/// values.
proof fn lemma_map_get_injective(m: Seq<(u64, u64)>, k1: u64, k2: u64)
    requires
        map_vals_distinct(m),
        map_has(m, k1),
        map_has(m, k2),
        k1 != k2,
    ensures
        map_get(m, k1) != map_get(m, k2),
{
    let i = lemma_map_get_witness(m, k1);
    let j = lemma_map_get_witness(m, k2);
    assert(i != j);
}

/// The remapping table from legacy numeric identifiers to fresh ones.
struct IdMap {
    entries: Vec<(u64, u64)>,
}

impl IdMap {
    spec fn view(&self) -> Seq<(u64, u64)> {
        self.entries@
    }

    fn new() -> (r: Self)
        ensures
            r.view() == Seq::<(u64, u64)>::empty(),
    {
        let r = IdMap { entries: Vec::new() };
        proof {
            assert(r.view() =~= Seq::<(u64, u64)>::empty());
        }
        r
    }

    /// Hands back the fresh identifier already assigned to this legacy
    /// key, or assigns a new one from the store's counter and records
    /// it.
    fn get_or_assign(&mut self, store: &mut MessageStore, k: u64) -> (v: u64)
        requires
            old(store).wf(),
            old(store).can_assign_id(),
            map_vals_below(old(self).view(), old(store)@.next_id),
            map_vals_distinct(old(self).view()),
        ensures
            final(store).wf(),
            final(store)@.entries == old(store)@.entries,
            old(store)@.next_id <= final(store)@.next_id <= old(store)@.next_id + 1,
            map_vals_below(final(self).view(), final(store)@.next_id),
            map_vals_distinct(final(self).view()),
            map_has(final(self).view(), k),
            v == map_get(final(self).view(), k),
            v < final(store)@.next_id,
            map_preserves(old(self).view(), final(self).view()),
            map_has(old(self).view(), k) ==> *final(self) == *old(self) && *final(store) == *old(
                store,
            ) && v == map_get(old(self).view(), k),
            !map_has(old(self).view(), k) ==> v == old(store)@.next_id && final(store)@.next_id
                == old(store)@.next_id + 1 && final(self).view() == old(self).view().push((k, v))
                && (forall|k2: u64|
                k2 != k ==> map_has(final(self).view(), k2) == map_has(old(self).view(), k2)
                    && map_get(final(self).view(), k2) == map_get(old(self).view(), k2)),
    {
        let n = self.entries.len();
        let mut i = n;
        while i > 0
            invariant
                *self == *old(self),
                *store == *old(store),
                store.wf(),
                map_vals_below(self.view(), store@.next_id),
                map_vals_distinct(self.view()),
                i <= n,
                n == self.entries.len(),
                forall|t: int| i <= t < n ==> (#[trigger] self.entries@[t]).0 != k,
            decreases i,
        {
            i = i - 1;
            if self.entries[i].0 == k {
                let v = self.entries[i].1;
                proof {
                    lemma_map_get_tail(self.view(), k, i as int);
                    let w = lemma_map_get_witness(self.view(), k);
                }
                return v;
            }
        }
        proof {
            lemma_map_has_none(self.view(), k);
        }
        let v = store.assign_id();
        let ghost m0 = self.view();
        self.entries.push((k, v));
        proof {
            assert(self.view() =~= m0.push((k, v)));
            assert(self.view().last() == (k, v));
            assert(self.view().drop_last() =~= m0);
            assert(map_has(self.view(), k));
            assert(map_get(self.view(), k) == v);
            assert forall|k2: u64| k2 != k implies map_has(self.view(), k2) == map_has(m0, k2)
                && map_get(self.view(), k2) == map_get(m0, k2) by {}
            assert forall|k2: u64| #[trigger] map_has(m0, k2) implies map_has(self.view(), k2)
                && map_get(self.view(), k2) == map_get(m0, k2) by {
                assert(k2 != k);
            }
        }
        v
    }
}

impl IdMap {
    /// Assigns a fresh identifier to this legacy key unconditionally;
    /// an earlier assignment for the same key is superseded, as a hash
    /// map insertion would supersede it.
    fn assign(&mut self, store: &mut MessageStore, k: u64) -> (v: u64)
        requires
            old(store).wf(),
            old(store).can_assign_id(),
            map_vals_below(old(self).view(), old(store)@.next_id),
            map_vals_distinct(old(self).view()),
        ensures
            final(store).wf(),
            final(store)@.entries == old(store)@.entries,
            v == old(store)@.next_id,
            final(store)@.next_id == old(store)@.next_id + 1,
            final(self).view() == old(self).view().push((k, v)),
            map_vals_below(final(self).view(), final(store)@.next_id),
            map_vals_distinct(final(self).view()),
            map_has(final(self).view(), k),
            map_get(final(self).view(), k) == v,
            forall|k2: u64|
                k2 != k ==> map_has(final(self).view(), k2) == map_has(old(self).view(), k2)
                    && map_get(final(self).view(), k2) == map_get(old(self).view(), k2),
    {
        let v = store.assign_id();
        let ghost m0 = self.view();
        self.entries.push((k, v));
        proof {
            assert(self.view() =~= m0.push((k, v)));
            assert(self.view().last() == (k, v));
            assert(self.view().drop_last() =~= m0);
            assert forall|k2: u64| k2 != k implies map_has(self.view(), k2) == map_has(m0, k2)
                && map_get(self.view(), k2) == map_get(m0, k2) by {}
        }
        v
    }
}

/// When every entry from position `i` on misses the key and entry `i`
/// carries it, the map's value for the key is entry `i`'s value.
proof fn lemma_map_get_tail(m: Seq<(u64, u64)>, k: u64, i: int)
    requires
        0 <= i < m.len(),
        m[i].0 == k,
        forall|t: int| i < t < m.len() ==> (#[trigger] m[t]).0 != k,
    ensures
        map_has(m, k),
        map_get(m, k) == m[i].1,
    decreases m.len(),
{
    if i == m.len() - 1 {
    } else {
        assert(m.last().0 != k);
        assert(m.drop_last()[i] == m[i]);
        assert forall|t: int| i < t < m.drop_last().len() implies (#[trigger] m.drop_last()[t]).0
            != k by {
            assert(m.drop_last()[t] == m[t]);
        }
        lemma_map_get_tail(m.drop_last(), k, i);
    }
}

/// The number of fresh identifiers the message lists can consume at
/// most: one per contact key, two per message (a sender and the
/// message itself).
pub open spec fn msgs_budget(ms: Seq<(u64, Seq<LegacyMessageView>)>) -> int
    decreases ms.len(),
{
    if ms.len() == 0 {
        0
    } else {
        1 + 2 * ms.first().1.len() + msgs_budget(ms.drop_first())
    }
}

/// The budget is never negative.
proof fn lemma_msgs_budget_nonneg(ms: Seq<(u64, Seq<LegacyMessageView>)>)
    ensures
        msgs_budget(ms) >= 0,
    decreases ms.len(),
{
    if ms.len() > 0 {
        lemma_msgs_budget_nonneg(ms.drop_first());
    }
}

/// One step of consuming the budget entry by entry.
proof fn lemma_msgs_budget_skip(ms: Seq<(u64, Seq<LegacyMessageView>)>, i: int)
    requires
        0 <= i < ms.len(),
    ensures
        msgs_budget(ms.skip(i)) == 1 + 2 * ms[i].1.len() + msgs_budget(ms.skip(i + 1)),
{
    assert(ms.skip(i).first() == ms[i]);
    assert(ms.skip(i).drop_first() =~= ms.skip(i + 1));
}

/// What migration does to one legacy message list: same length, the
/// contents and entrance-animation flags kept in order, every message
/// normal and without reactions; a message is attributed to the user
/// exactly where the legacy sender was 0, and any other sender is the
/// remapping table's image of the legacy sender.
pub open spec fn migrated_list(
    v: StoreView,
    user_id: u64,
    m: Seq<(u64, u64)>,
    list: Seq<LegacyMessageView>,
    ci: u64,
) -> bool {
    let msgs = spec_msgs_of(v, ci);
    &&& spec_has_contact(v.entries, ci)
    &&& msgs.len() == list.len()
    &&& forall|j: int|
        0 <= j < list.len() ==> {
            &&& (#[trigger] msgs[j]).content == list[j].content
            &&& msgs[j].animate == list[j].animate
            &&& msgs[j].kind == MessageKind::Normal
            &&& msgs[j].reactions == Seq::<crate::models::ReactionView>::empty()
            &&& (msgs[j].sender_id == user_id <==> list[j].sender_id == 0)
            &&& (list[j].sender_id != 0 ==> map_has(m, list[j].sender_id) && msgs[j].sender_id
                == map_get(m, list[j].sender_id))
        }
}

/// A migrated list reads the map only at present keys, so it survives
/// the map's growth.
proof fn lemma_migrated_list_preserved(
    v: StoreView,
    user_id: u64,
    m1: Seq<(u64, u64)>,
    m2: Seq<(u64, u64)>,
    list: Seq<LegacyMessageView>,
    ci: u64,
)
    requires
        migrated_list(v, user_id, m1, list, ci),
        map_preserves(m1, m2),
    ensures
        migrated_list(v, user_id, m2, list, ci),
{
    let msgs = spec_msgs_of(v, ci);
    assert forall|j: int| 0 <= j < list.len() implies (list[j].sender_id != 0 ==> map_has(
        m2,
        list[j].sender_id,
    ) && (#[trigger] msgs[j]).sender_id == map_get(m2, list[j].sender_id)) by {
        if list[j].sender_id != 0 {
            assert(map_has(m1, list[j].sender_id));
        }
    }
}

/// Whether the contact's display name and avatar come from the first
/// participant sharing its identifier (empty strings when there is
/// none).
pub open spec fn contact_display_from(ops: Seq<OperatorView>, c: ContactView) -> bool {
    if exists|i: int| 0 <= i < ops.len() && ops[i].id == c.id {
        c.name == ops[crate::state::first_op_index(ops, c.id)].name && c.avatar_url
            == ops[crate::state::first_op_index(ops, c.id)].avatar_url
    } else {
        c.name == Seq::<char>::empty() && c.avatar_url == Seq::<char>::empty()
    }
}

/// One remapping table accounts for the whole migration. Its fresh
/// values are pairwise distinct (the remap is injective) and never
/// the user's identifier; every legacy operator, contact and
/// message-list key is in its domain; each operator that is the last
/// carrier of its legacy identifier, and every contact, carries the
/// table's image of its legacy identifier; each contact's participant
/// list is exactly its own identifier, and its display data comes
/// from the operator sharing it; and the store's entry for the image
/// of each list key holds that key's migrated list, senders remapped
/// by the same table.
pub open spec fn migration_witnessed(
    legacy_ops: Seq<LegacyOperator>,
    legacy_contacts: Seq<LegacyContact>,
    lists: Seq<(u64, Seq<LegacyMessageView>)>,
    r: StateView,
    m: Seq<(u64, u64)>,
) -> bool {
    &&& map_vals_distinct(m)
    &&& forall|t: int| 0 <= t < m.len() ==> (#[trigger] m[t]).1 != r.user_profile.id
    &&& forall|i: int| 0 <= i < legacy_ops.len() ==> map_has(m, (#[trigger] legacy_ops[i]).id)
    &&& forall|i: int|
        0 <= i < legacy_ops.len() && (forall|j: int|
            i < j < legacy_ops.len() ==> legacy_ops[j].id != legacy_ops[i].id) ==> (
        #[trigger] r.operators[i]).id == map_get(m, legacy_ops[i].id)
    &&& forall|i: int|
        0 <= i < legacy_contacts.len() ==> {
            &&& map_has(m, (#[trigger] legacy_contacts[i]).id)
            &&& r.contacts[i].id == map_get(m, legacy_contacts[i].id)
            &&& r.contacts[i].participant_ids == seq![r.contacts[i].id]
            &&& contact_display_from(r.operators, r.contacts[i])
        }
    &&& forall|i: int|
        0 <= i < lists.len() ==> {
            &&& map_has(m, (#[trigger] lists[i]).0)
            &&& migrated_list(r.messages, r.user_profile.id, m, lists[i].1, map_get(m, lists[i].0))
        }
}

/// Migrates a legacy state: fresh unique identifiers are generated
/// for the user, the participants, the contacts and every message;
/// one injective remapping table carries every numeric reference to
/// its fresh identifier consistently across operators, contacts,
/// message senders and message-list keys (witnessed in the contract);
/// messages keep their content and entrance-animation flag, become
/// normal messages without reactions, and stay attributed to the user
/// exactly where the legacy sender 0 stood; each contact lists itself
/// as its only participant and inherits its display data from the
/// operator sharing its identifier; stickers start empty, the snooze
/// date and the tutorial flag start cleared; the background is kept.
pub fn migrate_legacy_state(legacy: LegacyAppState) -> (r: AppState)
    requires
        forall|i: int, j: int|
            0 <= i < j < legacy.messages@.len() ==> (#[trigger] legacy.messages@[i]).0 != (
            #[trigger] legacy.messages@[j]).0,
        1 + legacy.operators@.len() + legacy.contacts@.len() + msgs_budget(
            legacy.messages.deep_view(),
        ) <= u64::MAX - 1,
    ensures
        store_wf(r@.messages),
        r@.user_profile.name == legacy.user_profile.name@,
        r@.user_profile.avatar_url == legacy.user_profile.avatar_url@,
        r@.operators.len() == legacy.operators@.len(),
        forall|i: int|
            0 <= i < r@.operators.len() ==> (#[trigger] r@.operators[i]).name
                == legacy.operators@[i].name@ && r@.operators[i].avatar_url
                == legacy.operators@[i].avatar_url@,
        forall|i: int, j: int|
            0 <= i < j < r@.operators.len() ==> r@.operators[i].id != r@.operators[j].id,
        r@.contacts.len() == legacy.contacts@.len(),
        forall|i: int|
            0 <= i < r@.contacts.len() ==> (#[trigger] r@.contacts[i]).unread_count
                == legacy.contacts@[i].unread_count && r@.contacts[i].chat_head_style
                == legacy.contacts@[i].chat_head_style && !r@.contacts[i].is_group,
        r@.stickers == Seq::<Seq<char>>::empty(),
        r@.background == legacy.background@,
        r@.update_snooze_date is None,
        !r@.hide_tutorial,
        exists|m: Seq<(u64, u64)>|
            migration_witnessed(
                legacy.operators@,
                legacy.contacts@,
                legacy.messages.deep_view(),
                r@,
                m,
            ),
{
    let ghost lseq = legacy.messages.deep_view();
    let ghost b_ops = legacy.operators@.len() as int;
    let ghost b_contacts = legacy.contacts@.len() as int;
    let ghost b_msgs = msgs_budget(lseq);
    proof {
        lemma_msgs_budget_nonneg(lseq);
    }
    let mut store = MessageStore::new();
    let mut map = IdMap::new();
    let user_id = store.assign_id();

    let mut operators: Vec<Operator> = Vec::new();
    let n_ops = legacy.operators.len();
    for i in 0..n_ops
        invariant
            n_ops == legacy.operators@.len(),
            store.wf(),
            store@.entries == Seq::<crate::store::EntryView>::empty(),
            map_vals_below(map.view(), store@.next_id),
            map_vals_distinct(map.view()),
            user_id < store@.next_id,
            forall|t: int| 0 <= t < map.view().len() ==> (#[trigger] map.view()[t]).1 > user_id,
            store@.next_id + (n_ops - i) + b_contacts + b_msgs <= u64::MAX,
            b_msgs == msgs_budget(lseq),
            b_msgs >= 0,
            b_contacts == legacy.contacts@.len(),
            operators.len() == i,
            forall|t: int|
                0 <= t < i ==> (#[trigger] operators@[t])@.name == legacy.operators@[t].name@
                    && operators@[t]@.avatar_url == legacy.operators@[t].avatar_url@,
            forall|t: int| 0 <= t < i ==> (#[trigger] operators@[t]).id < store@.next_id,
            forall|a: int, b: int| 0 <= a < b < i ==> operators@[a].id != operators@[b].id,
            forall|t: int| 0 <= t < i ==> map_has(map.view(), (#[trigger] legacy.operators@[t]).id),
            forall|t: int|
                0 <= t < i && (forall|j: int|
                    t < j < i ==> legacy.operators@[j].id != legacy.operators@[t].id) ==> (
                #[trigger] operators@[t]).id == map_get(map.view(), legacy.operators@[t].id),
    {
        let ghost mprev = map.view();
        let new_id = map.assign(&mut store, legacy.operators[i].id);
        operators.push(
            Operator {
                id: new_id,
                name: legacy.operators[i].name.clone(),
                avatar_url: legacy.operators[i].avatar_url.clone(),
            },
        );
        proof {
            let kk = legacy.operators@[i as int].id;
            assert(operators@[i as int].id == new_id);
            assert(map_get(map.view(), kk) == new_id);
            assert forall|t: int| 0 <= t < i + 1 implies map_has(
                map.view(),
                (#[trigger] legacy.operators@[t]).id,
            ) by {
                if t < i {
                    if legacy.operators@[t].id == kk {
                        assert(map_has(map.view(), kk));
                    } else {
                        assert(map_has(mprev, legacy.operators@[t].id));
                    }
                }
            }
            assert forall|t: int|
                0 <= t < i + 1 && (forall|j: int|
                    t < j < i + 1 ==> legacy.operators@[j].id != legacy.operators@[t].id) implies (
                #[trigger] operators@[t]).id == map_get(map.view(), legacy.operators@[t].id) by {
                if t < i {
                    if legacy.operators@[t].id == kk {
                        assert(legacy.operators@[i as int].id != legacy.operators@[t].id);
                        assert(false);
                    }
                }
            }
        }
    }

    let ghost m1 = map.view();
    let mut contacts: Vec<Contact> = Vec::new();
    let n_contacts = legacy.contacts.len();
    for i in 0..n_contacts
        invariant
            n_contacts == legacy.contacts@.len(),
            store.wf(),
            store@.entries == Seq::<crate::store::EntryView>::empty(),
            map_vals_below(map.view(), store@.next_id),
            map_vals_distinct(map.view()),
            user_id < store@.next_id,
            forall|t: int| 0 <= t < map.view().len() ==> (#[trigger] map.view()[t]).1 > user_id,
            store@.next_id + (n_contacts - i) + b_msgs <= u64::MAX,
            b_msgs == msgs_budget(lseq),
            b_msgs >= 0,
            map_preserves(m1, map.view()),
            contacts.len() == i,
            forall|t: int|
                0 <= t < i ==> (#[trigger] contacts@[t])@.unread_count
                    == legacy.contacts@[t].unread_count && contacts@[t]@.chat_head_style
                    == legacy.contacts@[t].chat_head_style && !contacts@[t]@.is_group,
            forall|t: int|
                0 <= t < i ==> map_has(map.view(), (#[trigger] legacy.contacts@[t]).id)
                    && contacts@[t]@.id == map_get(map.view(), legacy.contacts@[t].id),
            forall|t: int|
                0 <= t < i ==> (#[trigger] contacts@[t])@.participant_ids == seq![
                    contacts@[t]@.id,
                ],
            forall|t: int|
                0 <= t < i ==> contact_display_from(
                    operators.deep_view(),
                    (#[trigger] contacts@[t])@,
                ),
    {
        let ghost mprev = map.view();
        let new_id = map.get_or_assign(&mut store, legacy.contacts[i].id);
        let (name, avatar_url) = operator_strings(&operators, new_id);
        let mut participant_ids: Vec<u64> = Vec::new();
        participant_ids.push(new_id);
        proof {
            assert(participant_ids@ =~= seq![new_id]);
        }
        let row = Contact {
            id: new_id,
            unread_count: legacy.contacts[i].unread_count,
            chat_head_style: legacy.contacts[i].chat_head_style,
            name,
            avatar_url,
            participant_ids,
            is_group: false,
        };
        let ghost rowv = row@;
        contacts.push(row);
        proof {
            lemma_preserves_trans(m1, mprev, map.view());
            assert(contacts@[i as int]@ == rowv);
            assert(contact_display_from(operators.deep_view(), rowv));
            assert forall|t: int| 0 <= t < i + 1 implies map_has(
                map.view(),
                (#[trigger] legacy.contacts@[t]).id,
            ) && contacts@[t]@.id == map_get(map.view(), legacy.contacts@[t].id) by {
                if t < i {
                    assert(map_has(mprev, legacy.contacts@[t].id));
                }
            }
        }
    }

    let ghost m2 = map.view();
    let ghost keys = Seq::new(lseq.len(), |t: int| lseq[t].0);
    let mut cis: Ghost<Seq<u64>> = Ghost(Seq::empty());
    let n_entries = legacy.messages.len();
    proof {
        assert(lseq.skip(0) =~= lseq);
    }
    for i in 0..n_entries
        invariant
            n_entries == legacy.messages@.len(),
            lseq == legacy.messages.deep_view(),
            lseq.len() == n_entries,
            keys == Seq::new(lseq.len(), |t: int| lseq[t].0),
            forall|a: int, b: int| 0 <= a < b < lseq.len() ==> keys[a] != keys[b],
            store.wf(),
            map_vals_below(map.view(), store@.next_id),
            map_vals_distinct(map.view()),
            user_id < store@.next_id,
            forall|t: int| 0 <= t < map.view().len() ==> (#[trigger] map.view()[t]).1 > user_id,
            store@.next_id + msgs_budget(lseq.skip(i as int)) <= u64::MAX,
            map_preserves(m2, map.view()),
            cis@.len() == i,
            forall|t: int|
                0 <= t < i ==> map_has(map.view(), keys[t]) && #[trigger] cis@[t] == map_get(
                    map.view(),
                    keys[t],
                ),
            forall|t: int|
                0 <= t < i ==> migrated_list(
                    store@,
                    user_id,
                    map.view(),
                    (#[trigger] lseq[t]).1,
                    cis@[t],
                ),
    {
        proof {
            lemma_msgs_budget_skip(lseq, i as int);
            lemma_msgs_budget_nonneg(lseq.skip(i + 1));
        }
        let key = legacy.messages[i].0;
        proof {
            assert(lseq[i as int].0 == key);
            assert(keys[i as int] == key);
        }
        let ghost mprev = map.view();
        let ci = map.get_or_assign(&mut store, key);
        proof {
            lemma_preserves_trans(m2, mprev, map.view());
            assert forall|t: int| 0 <= t < i implies map_has(map.view(), keys[t])
                && #[trigger] cis@[t] == map_get(map.view(), keys[t]) by {
                assert(map_has(mprev, keys[t]));
            }
            assert forall|t: int| 0 <= t < i implies migrated_list(
                store@,
                user_id,
                map.view(),
                (#[trigger] lseq[t]).1,
                cis@[t],
            ) by {
                lemma_migrated_list_preserved(
                    store@,
                    user_id,
                    mprev,
                    map.view(),
                    lseq[t].1,
                    cis@[t],
                );
            }
        }
        let ghost entries_before = store@.entries;
        let ghost list = lseq[i as int].1;
        let m = legacy.messages[i].1.len();
        proof {
            assert(list == legacy.messages@[i as int].1.deep_view());
        }
        let mut built: Vec<Message> = Vec::new();
        for j in 0..m
            invariant
                0 <= i < n_entries,
                n_entries == legacy.messages@.len(),
                lseq == legacy.messages.deep_view(),
                keys == Seq::new(lseq.len(), |t: int| lseq[t].0),
                forall|a: int, b: int| 0 <= a < b < lseq.len() ==> keys[a] != keys[b],
                list == lseq[i as int].1,
                list == legacy.messages@[i as int].1.deep_view(),
                m == list.len(),
                store.wf(),
                store@.entries == entries_before,
                map_vals_below(map.view(), store@.next_id),
                map_vals_distinct(map.view()),
                user_id < store@.next_id,
                forall|t: int|
                    0 <= t < map.view().len() ==> (#[trigger] map.view()[t]).1 > user_id,
                store@.next_id + 2 * (m - j) + msgs_budget(lseq.skip(i + 1)) <= u64::MAX,
                msgs_budget(lseq.skip(i + 1)) >= 0,
                map_preserves(m2, map.view()),
                map_has(map.view(), key),
                ci == map_get(map.view(), key),
                cis@.len() == i,
                forall|t: int|
                    0 <= t < i ==> map_has(map.view(), keys[t]) && #[trigger] cis@[t] == map_get(
                        map.view(),
                        keys[t],
                    ),
                forall|t: int|
                    0 <= t < i ==> migrated_list(
                        store@,
                        user_id,
                        map.view(),
                        (#[trigger] lseq[t]).1,
                        cis@[t],
                    ),
                built.len() == j,
                forall|t: int| 0 <= t < j ==> (#[trigger] built.deep_view()[t]).id < store@.next_id,
                forall|a: int, b: int|
                    0 <= a < b < j ==> built.deep_view()[a].id != built.deep_view()[b].id,
                forall|t: int|
                    0 <= t < j ==> {
                        &&& (#[trigger] built.deep_view()[t]).content == list[t].content
                        &&& built.deep_view()[t].animate == list[t].animate
                        &&& built.deep_view()[t].kind == MessageKind::Normal
                        &&& built.deep_view()[t].reactions == Seq::<
                            crate::models::ReactionView,
                        >::empty()
                        &&& (built.deep_view()[t].sender_id == user_id <==> list[t].sender_id
                            == 0)
                        &&& (list[t].sender_id != 0 ==> map_has(map.view(), list[t].sender_id)
                            && built.deep_view()[t].sender_id == map_get(
                            map.view(),
                            list[t].sender_id,
                        ))
                    },
        {
            let sender_src = legacy.messages[i].1[j].sender_id;
            proof {
                assert(legacy.messages@[i as int].1@[j as int].deep_view() == list[j as int]);
            }
            let ghost mprev = map.view();
            let sender_id = if sender_src == 0 {
                user_id
            } else {
                let s = map.get_or_assign(&mut store, sender_src);
                proof {
                    let w = lemma_map_get_witness(map.view(), sender_src);
                    assert(s > user_id);
                }
                s
            };
            proof {
                lemma_preserves_trans(m2, mprev, map.view());
                assert forall|t: int| 0 <= t < i implies map_has(map.view(), keys[t])
                    && #[trigger] cis@[t] == map_get(map.view(), keys[t]) by {
                    assert(map_has(mprev, keys[t]));
                }
                assert forall|t: int| 0 <= t < i implies migrated_list(
                    store@,
                    user_id,
                    map.view(),
                    (#[trigger] lseq[t]).1,
                    cis@[t],
                ) by {
                    lemma_migrated_list_preserved(
                        store@,
                        user_id,
                        mprev,
                        map.view(),
                        lseq[t].1,
                        cis@[t],
                    );
                }
                assert forall|t: int| 0 <= t < j && list[t].sender_id != 0 implies map_has(
                    map.view(),
                    list[t].sender_id,
                ) && (#[trigger] built.deep_view()[t]).sender_id == map_get(
                    map.view(),
                    list[t].sender_id,
                ) by {
                    assert(map_has(mprev, list[t].sender_id));
                }
            }
            let mid = store.assign_id();
            let msg = Message {
                id: mid,
                sender_id,
                content: legacy.messages[i].1[j].content.clone(),
                kind: MessageKind::Normal,
                animate: legacy.messages[i].1[j].animate,
                reactions: Vec::new(),
            };
            let ghost mv = msg@;
            let ghost built0 = built.deep_view();
            proof {
                assert(mv.reactions =~= Seq::<crate::models::ReactionView>::empty());
            }
            built.push(msg);
            proof {
                assert(built.deep_view() =~= built0.push(mv));
                assert(built.deep_view()[j as int] == mv);
            }
        }
        proof {
            assert(crate::store::msg_ids_unique(built.deep_view()));
            assert(crate::store::msg_ids_below(built.deep_view(), store@.next_id));
        }
        store.replace_all_messages(ci, built);
        proof {
            assert(migrated_list(store@, user_id, map.view(), list, ci));
            assert forall|t: int| 0 <= t < i implies migrated_list(
                store@,
                user_id,
                map.view(),
                (#[trigger] lseq[t]).1,
                cis@[t],
            ) by {
                assert(keys[t] != keys[i as int]);
                lemma_map_get_injective(map.view(), keys[t], keys[i as int]);
                assert(cis@[t] != ci);
            }
        }
        proof {
            cis@ = cis@.push(ci);
        }
    }
    let ghost sfinal = store@;
    let ghost mfinal = map.view();
    let r = AppState {
        user_profile: UserProfile {
            id: user_id,
            name: legacy.user_profile.name,
            avatar_url: legacy.user_profile.avatar_url,
        },
        contacts,
        messages: store,
        operators,
        stickers: Vec::new(),
        background: legacy.background,
        update_snooze_date: None,
        hide_tutorial: false,
    };
    proof {
        assert(r@.stickers =~= Seq::<Seq<char>>::empty());
        assert(r@.messages == sfinal);
        assert(r@.user_profile.id == user_id);
        lemma_preserves_trans(m1, m2, mfinal);
        assert(migration_witnessed(
            legacy.operators@,
            legacy.contacts@,
            legacy.messages.deep_view(),
            r@,
            mfinal,
        )) by {
            assert forall|t: int| 0 <= t < mfinal.len() implies (#[trigger] mfinal[t]).1
                != r@.user_profile.id by {}
            assert forall|i: int| 0 <= i < legacy.operators@.len() implies map_has(
                mfinal,
                (#[trigger] legacy.operators@[i]).id,
            ) by {
                assert(map_has(m1, legacy.operators@[i].id));
            }
            assert forall|i: int|
                0 <= i < legacy.operators@.len() && (forall|j: int|
                    i < j < legacy.operators@.len() ==> legacy.operators@[j].id
                        != legacy.operators@[i].id) implies (#[trigger] r@.operators[i]).id
                == map_get(mfinal, legacy.operators@[i].id) by {
                assert(map_has(m1, legacy.operators@[i].id));
            }
            assert forall|i: int| 0 <= i < legacy.contacts@.len() implies map_has(
                mfinal,
                (#[trigger] legacy.contacts@[i]).id,
            ) && r@.contacts[i].id == map_get(mfinal, legacy.contacts@[i].id)
                && r@.contacts[i].participant_ids == seq![r@.contacts[i].id]
                && contact_display_from(r@.operators, r@.contacts[i]) by {
                assert(map_has(m2, legacy.contacts@[i].id));
            }
            assert forall|i: int| 0 <= i < lseq.len() implies map_has(
                mfinal,
                (#[trigger] lseq[i]).0,
            ) && migrated_list(
                r@.messages,
                r@.user_profile.id,
                mfinal,
                lseq[i].1,
                map_get(mfinal, lseq[i].0),
            ) by {
                assert(keys[i] == lseq[i].0);
                assert(map_has(mfinal, keys[i]));
                assert(cis@[i] == map_get(mfinal, keys[i]));
                assert(migrated_list(sfinal, user_id, mfinal, lseq[i].1, cis@[i]));
            }
        }
        assert(exists|m: Seq<(u64, u64)>|
            migration_witnessed(
                legacy.operators@,
                legacy.contacts@,
                legacy.messages.deep_view(),
                r@,
                m,
            )) by {
            assert(migration_witnessed(
                legacy.operators@,
                legacy.contacts@,
                legacy.messages.deep_view(),
                r@,
                mfinal,
            ));
        }
    }
    r
}

/// The display name and avatar a contact inherits from the first
/// participant carrying its identifier, empty when there is none.
fn operator_strings(operators: &Vec<Operator>, id: u64) -> (r: (String, String))
    ensures
        ({
            let ops = operators.deep_view();
            if exists|i: int| 0 <= i < ops.len() && ops[i].id == id {
                r.0@ == ops[crate::state::first_op_index(ops, id)].name && r.1@
                    == ops[crate::state::first_op_index(ops, id)].avatar_url
            } else {
                r.0@ == Seq::<char>::empty() && r.1@ == Seq::<char>::empty()
            }
        }),
{
    let ghost ops = operators.deep_view();
    let n = operators.len();
    for i in 0..n
        invariant
            n == operators.len(),
            ops == operators.deep_view(),
            forall|k: int| 0 <= k < i ==> ops[k].id != id,
    {
        if operators[i].id == id {
            proof {
                assert(ops[i as int].id == id);
                let j = crate::state::first_op_index(ops, id);
                assert(0 <= j < ops.len() && ops[j].id == id && (forall|k: int|
                    0 <= k < j ==> ops[k].id != id)) by {
                    assert(0 <= i < ops.len() && ops[i as int].id == id && (forall|k: int|
                        0 <= k < i ==> ops[k].id != id));
                }
                assert(j == i);
            }
            return (operators[i].name.clone(), operators[i].avatar_url.clone());
        }
    }
    (String::new(), String::new())
}

/// A key no entry carries is absent.
proof fn lemma_map_has_none(m: Seq<(u64, u64)>, k: u64)
    requires
        forall|t: int| 0 <= t < m.len() ==> (#[trigger] m[t]).0 != k,
    ensures
        !map_has(m, k),
    decreases m.len(),
{
    if m.len() > 0 {
        assert(m.drop_last() =~= m.take(m.len() - 1));
        assert forall|t: int| 0 <= t < m.drop_last().len() implies (#[trigger] m.drop_last()[t]).0
            != k by {
            assert(m.drop_last()[t] == m[t]);
        }
        lemma_map_has_none(m.drop_last(), k);
    }
}

} // verus!

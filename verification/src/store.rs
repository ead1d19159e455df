//! Message store: the canonical per-contact ordered message lists.
//!
//! The store owns one ordered list of messages per contact and hands out
//! fresh message identifiers from a monotonically increasing counter, so
//! an identifier, once deleted, is never used again. All operations are
//! synchronous and in-memory; unknown identifiers are silently ignored
//! except on the creation paths.

use vstd::prelude::*;

use crate::models::{clone_messages, Message, MessageKind, MessageReaction, MessageView};
use crate::util::{spec_trim, trim_spaces};
use vstd::string::StringExecFnsIsAscii;

verus! {

/// One contact's slot in the store.
pub struct StoreEntry {
    pub contact_id: u64,
    pub messages: Vec<Message>,
}

/// Mathematical view of a store entry.
#[verifier::ext_equal]
pub ghost struct EntryView {
    pub contact_id: u64,
    pub messages: Seq<MessageView>,
}

impl View for StoreEntry {
    type V = EntryView;

    open spec fn view(&self) -> EntryView {
        EntryView { contact_id: self.contact_id, messages: self.messages.deep_view() }
    }
}

impl DeepView for StoreEntry {
    type V = EntryView;

    open spec fn deep_view(&self) -> EntryView {
        self.view()
    }
}

/// Mathematical view of the whole store.
#[verifier::ext_equal]
pub ghost struct StoreView {
    pub entries: Seq<EntryView>,
    pub next_id: u64,
}

/// The canonical message store.
pub struct MessageStore {
    entries: Vec<StoreEntry>,
    next_id: u64,
}

impl View for MessageStore {
    type V = StoreView;

    closed spec fn view(&self) -> StoreView {
        StoreView { entries: self.entries.deep_view(), next_id: self.next_id }
    }
}

/// No two entries belong to the same contact.
pub open spec fn contact_ids_unique(entries: Seq<EntryView>) -> bool {
    forall|i: int, j: int|
        0 <= i < j < entries.len() ==> entries[i].contact_id != entries[j].contact_id
}

/// All message identifiers in the list are distinct.
pub open spec fn msg_ids_unique(msgs: Seq<MessageView>) -> bool {
    forall|i: int, j: int| 0 <= i < j < msgs.len() ==> msgs[i].id != msgs[j].id
}

/// All message identifiers in the list are below `bound`.
pub open spec fn msg_ids_below(msgs: Seq<MessageView>, bound: u64) -> bool {
    forall|i: int| 0 <= i < msgs.len() ==> msgs[i].id < bound
}

/// Well-formedness of the store: entries keyed by distinct contacts, and
/// every message identifier distinct and below the fresh-id counter.
pub open spec fn store_wf(v: StoreView) -> bool {
    &&& contact_ids_unique(v.entries)
    &&& forall|i: int| 0 <= i < v.entries.len() ==> msg_ids_unique(#[trigger] v.entries[i].messages)
    &&& forall|i: int|
        0 <= i < v.entries.len() ==> msg_ids_below(#[trigger] v.entries[i].messages, v.next_id)
}

/// Whether some entry belongs to `contact_id`.
pub open spec fn spec_has_contact(entries: Seq<EntryView>, contact_id: u64) -> bool {
    exists|i: int| 0 <= i < entries.len() && entries[i].contact_id == contact_id
}

/// The index of the entry that belongs to `contact_id`; meaningful only
/// when such an entry exists and contact ids are unique.
pub open spec fn spec_entry_index(entries: Seq<EntryView>, contact_id: u64) -> int {
    choose|i: int| 0 <= i < entries.len() && entries[i].contact_id == contact_id
}

/// The message list stored for `contact_id`, empty if the contact has
/// no entry.
pub open spec fn spec_msgs_of(v: StoreView, contact_id: u64) -> Seq<MessageView> {
    if spec_has_contact(v.entries, contact_id) {
        v.entries[spec_entry_index(v.entries, contact_id)].messages
    } else {
        Seq::empty()
    }
}

/// Whether the list holds a message with this identifier.
pub open spec fn spec_has_msg(msgs: Seq<MessageView>, id: u64) -> bool {
    exists|i: int| 0 <= i < msgs.len() && msgs[i].id == id
}

/// The position of the message with this identifier; meaningful only
/// when present and identifiers are unique.
pub open spec fn spec_msg_index(msgs: Seq<MessageView>, id: u64) -> int {
    choose|i: int| 0 <= i < msgs.len() && msgs[i].id == id
}

/// Where a message inserted before `anchor_id` lands: the anchor's
/// position, or the tail when the anchor is absent.
pub open spec fn spec_insert_pos(msgs: Seq<MessageView>, anchor_id: u64) -> int {
    if spec_has_msg(msgs, anchor_id) {
        spec_msg_index(msgs, anchor_id)
    } else {
        msgs.len() as int
    }
}

/// The view of a message freshly created by the store.
pub open spec fn new_msg_view(id: u64, sender_id: u64, content: Seq<char>, kind: MessageKind) -> MessageView {
    MessageView {
        id,
        sender_id,
        content,
        kind,
        animate: true,
        reactions: Seq::empty(),
    }
}

/// Replacing one entry by another for the same contact changes that
/// contact's list and nothing else.
proof fn lemma_msgs_of_update(v: StoreView, idx: int, e: EntryView, w: StoreView)
    requires
        contact_ids_unique(v.entries),
        0 <= idx < v.entries.len(),
        e.contact_id == v.entries[idx].contact_id,
        w.entries == v.entries.update(idx, e),
    ensures
        forall|c: u64| c != e.contact_id ==> spec_msgs_of(w, c) == spec_msgs_of(v, c),
        forall|c: u64|
            spec_has_contact(w.entries, c) == spec_has_contact(v.entries, c),
        spec_has_contact(v.entries, e.contact_id),
        spec_msgs_of(w, e.contact_id) == e.messages,
        contact_ids_unique(w.entries),
{
    assert forall|c: u64| spec_has_contact(w.entries, c) == spec_has_contact(v.entries, c) by {
        if spec_has_contact(v.entries, c) {
            let i = spec_entry_index(v.entries, c);
            assert(w.entries[i].contact_id == c);
        }
        if spec_has_contact(w.entries, c) {
            let i = spec_entry_index(w.entries, c);
            assert(v.entries[i].contact_id == c);
        }
    }
    assert forall|c: u64| c != e.contact_id implies spec_msgs_of(w, c) == spec_msgs_of(v, c) by {
        if spec_has_contact(v.entries, c) {
            let i = spec_entry_index(v.entries, c);
            let j = spec_entry_index(w.entries, c);
            assert(v.entries[j].contact_id == c);
            assert(i == j);
            assert(i != idx);
        }
    }
    assert(w.entries[idx].contact_id == e.contact_id);
    let k = spec_entry_index(w.entries, e.contact_id);
    assert(v.entries[k].contact_id == v.entries[idx].contact_id);
    assert(k == idx);
}

/// Appending an entry for a contact that had none changes that contact's
/// list and nothing else.
proof fn lemma_msgs_of_push(v: StoreView, e: EntryView, w: StoreView)
    requires
        contact_ids_unique(v.entries),
        !spec_has_contact(v.entries, e.contact_id),
        w.entries == v.entries.push(e),
    ensures
        forall|c: u64| c != e.contact_id ==> spec_msgs_of(w, c) == spec_msgs_of(v, c),
        forall|c: u64|
            spec_has_contact(w.entries, c) == (spec_has_contact(v.entries, c) || c
                == e.contact_id),
        spec_msgs_of(w, e.contact_id) == e.messages,
        contact_ids_unique(w.entries),
{
    let n = v.entries.len() as int;
    assert(w.entries[n] == e);
    assert forall|c: u64|
        spec_has_contact(w.entries, c) == (spec_has_contact(v.entries, c) || c
            == e.contact_id) by {
        if spec_has_contact(v.entries, c) {
            let i = spec_entry_index(v.entries, c);
            assert(w.entries[i].contact_id == c);
        }
        if spec_has_contact(w.entries, c) {
            let i = spec_entry_index(w.entries, c);
            if i < n {
                assert(v.entries[i].contact_id == c);
            }
        }
        if c == e.contact_id {
            assert(w.entries[n].contact_id == c);
        }
    }
    assert forall|c: u64| c != e.contact_id implies spec_msgs_of(w, c) == spec_msgs_of(v, c) by {
        if spec_has_contact(v.entries, c) {
            let i = spec_entry_index(v.entries, c);
            let j = spec_entry_index(w.entries, c);
            assert(w.entries[i].contact_id == c);
            if j < n {
                assert(v.entries[j].contact_id == c);
                assert(i == j);
            }
        }
    }
    let k = spec_entry_index(w.entries, e.contact_id);
    if k < n {
        assert(v.entries[k].contact_id == e.contact_id);
        assert(false);
    }
    assert(k == n);
}

/// Finds the position of the message with this identifier.
pub(crate) fn find_msg_in(msgs: &Vec<Message>, msg_id: u64) -> (r: Option<usize>)
    requires
        msg_ids_unique(msgs.deep_view()),
    ensures
        match r {
            Some(i) => spec_has_msg(msgs.deep_view(), msg_id) && i == spec_msg_index(
                msgs.deep_view(),
                msg_id,
            ) && i < msgs.len(),
            None => !spec_has_msg(msgs.deep_view(), msg_id),
        },
{
    let n = msgs.len();
    for i in 0..n
        invariant
            n == msgs.len(),
            msg_ids_unique(msgs.deep_view()),
            forall|k: int| 0 <= k < i ==> msgs.deep_view()[k].id != msg_id,
    {
        if msgs[i].id == msg_id {
            proof {
                assert(msgs.deep_view()[i as int].id == msg_id);
                let j = spec_msg_index(msgs.deep_view(), msg_id);
                assert(msgs.deep_view()[j].id == msg_id);
                assert(j == i);
            }
            return Some(i);
        }
    }
    None
}

/// Decides whether a message list carries distinct identifiers that
/// are all below `bound`.
fn check_msgs_wf(msgs: &Vec<Message>, bound: u64) -> (b: bool)
    ensures
        b == (msg_ids_unique(msgs.deep_view()) && msg_ids_below(msgs.deep_view(), bound)),
{
    let n = msgs.len();
    for i in 0..n
        invariant
            n == msgs.len(),
            forall|a: int, b: int|
                0 <= a < b < n && a < i ==> msgs.deep_view()[a].id != msgs.deep_view()[b].id,
            forall|k: int| 0 <= k < i ==> msgs.deep_view()[k].id < bound,
    {
        if msgs[i].id >= bound {
            proof {
                assert(msgs.deep_view()[i as int].id >= bound);
            }
            return false;
        }
        let mut j = i + 1;
        while j < n
            invariant
                n == msgs.len(),
                i < n,
                i + 1 <= j <= n,
                forall|k: int|
                    i < k < j ==> msgs.deep_view()[k].id != msgs.deep_view()[i as int].id,
            decreases n - j,
        {
            if msgs[j].id == msgs[i].id {
                proof {
                    assert(msgs.deep_view()[i as int].id == msgs.deep_view()[j as int].id);
                    assert(!msg_ids_unique(msgs.deep_view()));
                }
                return false;
            }
            j = j + 1;
        }
    }
    true
}

/// Two message lists of equal length whose identifiers agree position
/// by position.
pub open spec fn same_ids(a: Seq<MessageView>, b: Seq<MessageView>) -> bool {
    a.len() == b.len() && forall|i: int| 0 <= i < a.len() ==> a[i].id == b[i].id
}

/// Editing messages in place without touching their identifiers keeps
/// uniqueness and the counter bound.
proof fn lemma_same_ids_wf(a: Seq<MessageView>, b: Seq<MessageView>, bound: u64)
    requires
        same_ids(a, b),
        msg_ids_unique(a),
        msg_ids_below(a, bound),
    ensures
        msg_ids_unique(b),
        msg_ids_below(b, bound),
{
}

/// Removing one message keeps uniqueness and the counter bound.
proof fn lemma_remove_msg_wf(a: Seq<MessageView>, i: int, bound: u64)
    requires
        msg_ids_unique(a),
        msg_ids_below(a, bound),
        0 <= i < a.len(),
    ensures
        msg_ids_unique(a.remove(i)),
        msg_ids_below(a.remove(i), bound),
{
    let b = a.remove(i);
    assert forall|p: int, q: int| 0 <= p < q < b.len() implies b[p].id != b[q].id by {
        let p0 = if p < i { p } else { p + 1 };
        let q0 = if q < i { q } else { q + 1 };
        assert(b[p] == a[p0]);
        assert(b[q] == a[q0]);
    }
    assert forall|p: int| 0 <= p < b.len() implies b[p].id < bound by {
        let p0 = if p < i { p } else { p + 1 };
        assert(b[p] == a[p0]);
    }
}

/// Inserting a message carrying the fresh identifier keeps uniqueness,
/// with the counter bound moved up by one.
proof fn lemma_insert_msg_wf(a: Seq<MessageView>, i: int, m: MessageView, bound: u64)
    requires
        msg_ids_unique(a),
        msg_ids_below(a, bound),
        m.id == bound,
        bound < u64::MAX,
        0 <= i <= a.len(),
    ensures
        msg_ids_unique(a.insert(i, m)),
        msg_ids_below(a.insert(i, m), (bound + 1) as u64),
{
    let b = a.insert(i, m);
    assert forall|p: int, q: int| 0 <= p < q < b.len() implies b[p].id != b[q].id by {
        if p != i && q != i {
            let p0 = if p < i { p } else { p - 1 };
            let q0 = if q < i { q } else { q - 1 };
            assert(b[p] == a[p0]);
            assert(b[q] == a[q0]);
        } else if p == i {
            let q0 = q - 1;
            assert(b[q] == a[q0]);
        } else {
            let p0 = p;
            assert(b[p] == a[p0]);
        }
    }
    assert forall|p: int| 0 <= p < b.len() implies b[p].id < bound + 1 by {
        if p != i {
            let p0 = if p < i { p } else { p - 1 };
            assert(b[p] == a[p0]);
        }
    }
}

/// Removing an entry removes that contact and leaves every other
/// contact's list untouched.
proof fn lemma_msgs_of_remove(v: StoreView, idx: int, w: StoreView)
    requires
        contact_ids_unique(v.entries),
        0 <= idx < v.entries.len(),
        w.entries == v.entries.remove(idx),
        w.next_id == v.next_id,
    ensures
        contact_ids_unique(w.entries),
        !spec_has_contact(w.entries, v.entries[idx].contact_id),
        forall|c: u64|
            c != v.entries[idx].contact_id ==> spec_has_contact(w.entries, c) == spec_has_contact(
                v.entries,
                c,
            ),
        forall|c: u64|
            c != v.entries[idx].contact_id ==> spec_msgs_of(w, c) == spec_msgs_of(v, c),
{
    let cid = v.entries[idx].contact_id;
    assert forall|i: int, j: int| 0 <= i < j < w.entries.len() implies w.entries[i].contact_id
        != w.entries[j].contact_id by {
        let i0 = if i < idx { i } else { i + 1 };
        let j0 = if j < idx { j } else { j + 1 };
        assert(w.entries[i] == v.entries[i0]);
        assert(w.entries[j] == v.entries[j0]);
    }
    assert forall|i: int| 0 <= i < w.entries.len() implies w.entries[i] == v.entries[
        if i < idx {
            i
        } else {
            i + 1
        }
    ] by {}
    if spec_has_contact(w.entries, cid) {
        let i = spec_entry_index(w.entries, cid);
        let i0 = if i < idx { i } else { i + 1 };
        assert(v.entries[i0].contact_id == cid);
        assert(i0 != idx);
        assert(false);
    }
    assert forall|c: u64| c != cid implies spec_has_contact(w.entries, c) == spec_has_contact(
        v.entries,
        c,
    ) by {
        if spec_has_contact(v.entries, c) {
            let i = spec_entry_index(v.entries, c);
            assert(v.entries[i].contact_id == c);
            assert(i != idx);
            let i1 = if i < idx { i } else { i - 1 };
            assert(w.entries[i1] == v.entries[i]);
            assert(spec_has_contact(w.entries, c));
        } else {
            if spec_has_contact(w.entries, c) {
                let j = spec_entry_index(w.entries, c);
                let j0 = if j < idx { j } else { j + 1 };
                assert(v.entries[j0].contact_id == c);
                assert(false);
            }
        }
    }
    assert forall|c: u64| c != cid implies spec_msgs_of(w, c) == spec_msgs_of(v, c) by {
        if spec_has_contact(v.entries, c) {
            let i = spec_entry_index(v.entries, c);
            assert(v.entries[i].contact_id == c);
            assert(i != idx);
            let i1 = if i < idx { i } else { i - 1 };
            assert(w.entries[i1] == v.entries[i]);
            assert(spec_has_contact(w.entries, c));
            let j = spec_entry_index(w.entries, c);
            let j0 = if j < idx { j } else { j + 1 };
            assert(v.entries[j0].contact_id == c);
            assert(j0 == i);
            assert(spec_msgs_of(w, c) == w.entries[j].messages);
            assert(w.entries[j] == v.entries[j0]);
        }
    }
}

/// A message list with every entrance-animation flag cleared.
pub open spec fn spec_clear_animate(msgs: Seq<MessageView>) -> Seq<MessageView> {
    Seq::new(msgs.len(), |i: int| MessageView { animate: false, ..msgs[i] })
}

/// The store with every entrance-animation flag of the contact's list
/// cleared; stores without an entry for the contact stay as they are.
pub open spec fn spec_store_clear_animate(v: StoreView, contact_id: u64) -> StoreView {
    if spec_has_contact(v.entries, contact_id) {
        let idx = spec_entry_index(v.entries, contact_id);
        StoreView {
            entries: v.entries.update(
                idx,
                EntryView {
                    contact_id: v.entries[idx].contact_id,
                    messages: spec_clear_animate(v.entries[idx].messages),
                },
            ),
            ..v
        }
    } else {
        v
    }
}

/// Replacing one entry by a well-formed one for the same contact keeps
/// the whole store well-formed and changes only that contact's list.
proof fn lemma_store_update(v: StoreView, idx: int, e: EntryView, w: StoreView)
    requires
        store_wf(v),
        0 <= idx < v.entries.len(),
        e.contact_id == v.entries[idx].contact_id,
        w.entries == v.entries.update(idx, e),
        w.next_id == v.next_id,
        msg_ids_unique(e.messages),
        msg_ids_below(e.messages, v.next_id),
    ensures
        store_wf(w),
        forall|c: u64| c != e.contact_id ==> spec_msgs_of(w, c) == spec_msgs_of(v, c),
        forall|c: u64| spec_has_contact(w.entries, c) == spec_has_contact(v.entries, c),
        spec_has_contact(v.entries, e.contact_id),
        spec_msgs_of(w, e.contact_id) == e.messages,
{
    lemma_msgs_of_update(v, idx, e, w);
    assert forall|i: int| 0 <= i < w.entries.len() implies msg_ids_unique(
        #[trigger] w.entries[i].messages,
    ) && msg_ids_below(w.entries[i].messages, w.next_id) by {
        if i != idx {
            assert(w.entries[i] == v.entries[i]);
            assert(msg_ids_unique(v.entries[i].messages));
            assert(msg_ids_below(v.entries[i].messages, v.next_id));
        }
    }
}

impl MessageStore {
    /// Well-formedness of the store.
    pub open spec fn wf(&self) -> bool {
        store_wf(self@)
    }

    /// Whether the store can still assign a fresh identifier.
    pub open spec fn can_assign_id(&self) -> bool {
        self@.next_id < u64::MAX
    }

    /// An empty store; identifiers start at 1 so that identifier 0 can
    /// stand for the default user profile without ever colliding.
    pub fn new() -> (r: Self)
        ensures
            r.wf(),
            r@.entries == Seq::<EntryView>::empty(),
            r@.next_id == 1,
    {
        let r = MessageStore { entries: Vec::new(), next_id: 1 };
        assert(r@.entries =~= Seq::<EntryView>::empty());
        r
    }

    /// Assembles a store from loaded parts. Nothing is checked here;
    /// loaded state passes the well-formedness check before the rest
    /// of the library accepts it.
    pub fn from_parts(entries: Vec<StoreEntry>, next_id: u64) -> (r: Self)
        ensures
            r@.entries == entries.deep_view(),
            r@.next_id == next_id,
    {
        MessageStore { entries, next_id }
    }

    /// The counter the next created message will take as identifier.
    pub fn next_fresh_id(&self) -> (r: u64)
        ensures
            r == self@.next_id,
    {
        self.next_id
    }

    /// The entry list, for persistence.
    pub fn entries(&self) -> (r: &Vec<StoreEntry>)
        ensures
            r.deep_view() == self@.entries,
    {
        &self.entries
    }

    /// Finds the position of the entry that belongs to `contact_id`.
    fn find_entry(&self, contact_id: u64) -> (r: Option<usize>)
        requires
            contact_ids_unique(self@.entries),
        ensures
            match r {
                Some(i) => spec_has_contact(self@.entries, contact_id) && i
                    == spec_entry_index(self@.entries, contact_id) && i < self@.entries.len(),
                None => !spec_has_contact(self@.entries, contact_id),
            },
    {
        let n = self.entries.len();
        for i in 0..n
            invariant
                n == self.entries.len(),
                contact_ids_unique(self@.entries),
                forall|k: int| 0 <= k < i ==> self@.entries[k].contact_id != contact_id,
        {
            if self.entries[i].contact_id == contact_id {
                proof {
                    assert(self@.entries[i as int].contact_id == contact_id);
                    let j = spec_entry_index(self@.entries, contact_id);
                    assert(self@.entries[j].contact_id == contact_id);
                    assert(j == i);
                }
                return Some(i);
            }
        }
        None
    }

    /// Removes the entry at `idx` and hands it out.
    fn take_entry(&mut self, idx: usize) -> (e: StoreEntry)
        requires
            idx < old(self)@.entries.len(),
        ensures
            e@ == old(self)@.entries[idx as int],
            final(self)@.entries == old(self)@.entries.remove(idx as int),
            final(self)@.next_id == old(self)@.next_id,
    {
        let e = self.entries.remove(idx);
        assert(final(self)@.entries =~= old(self)@.entries.remove(idx as int));
        e
    }

    /// Puts an entry back at `idx`.
    fn put_entry(&mut self, idx: usize, e: StoreEntry)
        requires
            idx <= old(self)@.entries.len(),
        ensures
            final(self)@.entries == old(self)@.entries.insert(idx as int, e@),
            final(self)@.next_id == old(self)@.next_id,
    {
        self.entries.insert(idx, e);
        assert(final(self)@.entries =~= old(self)@.entries.insert(idx as int, e@));
    }

    /// Appends a fresh message at the tail of `contact_id`'s list,
    /// creating the list if the contact had none. The new message takes
    /// the next fresh identifier, carries `animate == true` and no
    /// reactions.
    pub fn append_message(
        &mut self,
        contact_id: u64,
        sender_id: u64,
        content: String,
        kind: MessageKind,
    ) -> (new_id: u64)
        requires
            old(self).wf(),
            old(self).can_assign_id(),
        ensures
            final(self).wf(),
            new_id == old(self)@.next_id,
            final(self)@.next_id == old(self)@.next_id + 1,
            spec_msgs_of(final(self)@, contact_id) == spec_msgs_of(old(self)@, contact_id).push(
                new_msg_view(new_id, sender_id, content@, kind),
            ),
            forall|c: u64|
                c != contact_id ==> spec_msgs_of(final(self)@, c) == spec_msgs_of(old(self)@, c),
            forall|c: u64|
                spec_has_contact(final(self)@.entries, c) == (spec_has_contact(
                    old(self)@.entries,
                    c,
                ) || c == contact_id),
    {
        let ghost v0 = self@;
        let new_id = self.next_id;
        self.next_id = self.next_id + 1;
        let msg = Message {
            id: new_id,
            sender_id,
            content,
            kind,
            animate: true,
            reactions: Vec::new(),
        };
        assert(msg@ == new_msg_view(new_id, sender_id, msg.content@, kind));
        assert(msg@.reactions =~= Seq::<crate::models::ReactionView>::empty());
        match self.find_entry(contact_id) {
            Some(idx) => {
                let ghost v1 = self@;
                let mut e = self.take_entry(idx);
                let ghost e0 = e@;
                e.messages.push(msg);
                let ghost e1 = e@;
                proof {
                    assert(e1.messages =~= e0.messages.push(msg@));
                    assert(v1.entries[idx as int].contact_id == contact_id);
                }
                self.put_entry(idx, e);
                proof {
                    assert(self@.entries == v1.entries.remove(idx as int).insert(idx as int, e1));
                    assert(self@.entries =~= v1.entries.update(idx as int, e1));
                    lemma_msgs_of_update(v1, idx as int, e1, self@);
                    assert(spec_msgs_of(v1, contact_id) == v1.entries[idx as int].messages);
                    assert forall|i: int| 0 <= i < self@.entries.len() implies msg_ids_unique(
                        #[trigger] self@.entries[i].messages,
                    ) && msg_ids_below(self@.entries[i].messages, self@.next_id) by {
                        if i != idx {
                            assert(self@.entries[i] == v0.entries[i]);
                            assert(msg_ids_unique(v0.entries[i].messages));
                            assert(msg_ids_below(v0.entries[i].messages, v0.next_id));
                        } else {
                            let ms = self@.entries[i].messages;
                            let old_ms = v0.entries[idx as int].messages;
                            assert(ms == old_ms.push(msg@));
                            assert(msg_ids_below(old_ms, v0.next_id));
                            assert forall|a: int, b: int| 0 <= a < b < ms.len() implies ms[a].id
                                != ms[b].id by {
                                if b < old_ms.len() {
                                    assert(msg_ids_unique(old_ms));
                                } else {
                                    assert(ms[b].id == new_id);
                                    assert(ms[a].id < v0.next_id);
                                }
                            }
                        }
                    }
                }
            },
            None => {
                let ghost v1 = self@;
                let mut msgs: Vec<Message> = Vec::new();
                msgs.push(msg);
                let e = StoreEntry { contact_id, messages: msgs };
                let ghost e1 = e@;
                proof {
                    assert(e1.messages =~= Seq::<MessageView>::empty().push(msg@));
                }
                let n = self.entries.len();
                self.put_entry(n, e);
                proof {
                    assert(self@.entries =~= v1.entries.push(e1));
                    lemma_msgs_of_push(v1, e1, self@);
                    assert(spec_msgs_of(v1, contact_id) =~= Seq::<MessageView>::empty());
                    assert(spec_msgs_of(self@, contact_id) =~= spec_msgs_of(v1, contact_id).push(
                        msg@,
                    ));
                    assert forall|i: int| 0 <= i < self@.entries.len() implies msg_ids_unique(
                        #[trigger] self@.entries[i].messages,
                    ) && msg_ids_below(self@.entries[i].messages, self@.next_id) by {
                        if i < v0.entries.len() {
                            assert(self@.entries[i] == v0.entries[i]);
                            assert(msg_ids_unique(v0.entries[i].messages));
                            assert(msg_ids_below(v0.entries[i].messages, v0.next_id));
                        } else {
                            assert(self@.entries[i].messages == e1.messages);
                        }
                    }
                }
            },
        }
        new_id
    }

    /// Deletes the message with this identifier from `contact_id`'s
    /// list; unknown contacts or identifiers are silently ignored.
    pub fn delete_message(&mut self, contact_id: u64, msg_id: u64)
        requires
            old(self).wf(),
        ensures
            final(self).wf(),
            final(self)@.next_id == old(self)@.next_id,
            forall|c: u64|
                c != contact_id ==> spec_msgs_of(final(self)@, c) == spec_msgs_of(old(self)@, c),
            forall|c: u64|
                spec_has_contact(final(self)@.entries, c) == spec_has_contact(
                    old(self)@.entries,
                    c,
                ),
            spec_has_msg(spec_msgs_of(old(self)@, contact_id), msg_id) ==> spec_msgs_of(
                final(self)@,
                contact_id,
            ) == spec_msgs_of(old(self)@, contact_id).remove(
                spec_msg_index(spec_msgs_of(old(self)@, contact_id), msg_id),
            ),
            !spec_has_msg(spec_msgs_of(old(self)@, contact_id), msg_id) ==> final(self)@ == old(
                self,
            )@,
    {
        let ghost v0 = self@;
        let eidx = match self.find_entry(contact_id) {
            Some(i) => i,
            None => {
                return ;
            },
        };
        proof {
            assert(msg_ids_unique(self@.entries[eidx as int].messages));
        }
        let midx = match find_msg_in(&self.entries[eidx].messages, msg_id) {
            Some(i) => i,
            None => {
                proof {
                    assert(spec_msgs_of(v0, contact_id) == v0.entries[eidx as int].messages);
                }
                return ;
            },
        };
        let mut e = self.take_entry(eidx);
        let ghost e0 = e@;
        let _removed = e.messages.remove(midx);
        let ghost e1 = e@;
        proof {
            assert(e1.messages =~= e0.messages.remove(midx as int));
        }
        self.put_entry(eidx, e);
        proof {
            assert(self@.entries == v0.entries.remove(eidx as int).insert(eidx as int, e1));
            assert(self@.entries =~= v0.entries.update(eidx as int, e1));
            lemma_remove_msg_wf(e0.messages, midx as int, v0.next_id);
            lemma_store_update(v0, eidx as int, e1, self@);
            assert(spec_msgs_of(v0, contact_id) == e0.messages);
        }
    }

    /// Replaces the content of the message with this identifier;
    /// unknown contacts or identifiers are silently ignored.
    pub fn edit_content(&mut self, contact_id: u64, msg_id: u64, new_content: String)
        requires
            old(self).wf(),
        ensures
            final(self).wf(),
            final(self)@.next_id == old(self)@.next_id,
            forall|c: u64|
                c != contact_id ==> spec_msgs_of(final(self)@, c) == spec_msgs_of(old(self)@, c),
            forall|c: u64|
                spec_has_contact(final(self)@.entries, c) == spec_has_contact(
                    old(self)@.entries,
                    c,
                ),
            spec_has_msg(spec_msgs_of(old(self)@, contact_id), msg_id) ==> spec_msgs_of(
                final(self)@,
                contact_id,
            ) == spec_msgs_of(old(self)@, contact_id).update(
                spec_msg_index(spec_msgs_of(old(self)@, contact_id), msg_id),
                MessageView {
                    content: new_content@,
                    ..spec_msgs_of(old(self)@, contact_id)[spec_msg_index(
                        spec_msgs_of(old(self)@, contact_id),
                        msg_id,
                    )]
                },
            ),
            !spec_has_msg(spec_msgs_of(old(self)@, contact_id), msg_id) ==> final(self)@ == old(
                self,
            )@,
    {
        let ghost v0 = self@;
        let eidx = match self.find_entry(contact_id) {
            Some(i) => i,
            None => {
                return ;
            },
        };
        proof {
            assert(msg_ids_unique(self@.entries[eidx as int].messages));
        }
        let midx = match find_msg_in(&self.entries[eidx].messages, msg_id) {
            Some(i) => i,
            None => {
                proof {
                    assert(spec_msgs_of(v0, contact_id) == v0.entries[eidx as int].messages);
                }
                return ;
            },
        };
        let mut e = self.take_entry(eidx);
        let ghost e0 = e@;
        let mut m = e.messages.remove(midx);
        let ghost m0 = m@;
        m.content = new_content;
        e.messages.insert(midx, m);
        let ghost e1 = e@;
        proof {
            assert(e1.messages =~= e0.messages.update(
                midx as int,
                MessageView { content: new_content@, ..m0 },
            ));
        }
        self.put_entry(eidx, e);
        proof {
            assert(self@.entries == v0.entries.remove(eidx as int).insert(eidx as int, e1));
            assert(self@.entries =~= v0.entries.update(eidx as int, e1));
            assert(same_ids(e0.messages, e1.messages));
            lemma_same_ids_wf(e0.messages, e1.messages, v0.next_id);
            lemma_store_update(v0, eidx as int, e1, self@);
            assert(spec_msgs_of(v0, contact_id) == e0.messages);
        }
    }

    /// Clears the entrance-animation flag of the message with this
    /// identifier; used by the deferred animate-off timer. Idempotent;
    /// unknown contacts or identifiers are silently ignored.
    pub fn set_animate_false(&mut self, contact_id: u64, msg_id: u64)
        requires
            old(self).wf(),
        ensures
            final(self).wf(),
            final(self)@.next_id == old(self)@.next_id,
            forall|c: u64|
                c != contact_id ==> spec_msgs_of(final(self)@, c) == spec_msgs_of(old(self)@, c),
            forall|c: u64|
                spec_has_contact(final(self)@.entries, c) == spec_has_contact(
                    old(self)@.entries,
                    c,
                ),
            spec_has_msg(spec_msgs_of(old(self)@, contact_id), msg_id) ==> spec_msgs_of(
                final(self)@,
                contact_id,
            ) == spec_msgs_of(old(self)@, contact_id).update(
                spec_msg_index(spec_msgs_of(old(self)@, contact_id), msg_id),
                MessageView {
                    animate: false,
                    ..spec_msgs_of(old(self)@, contact_id)[spec_msg_index(
                        spec_msgs_of(old(self)@, contact_id),
                        msg_id,
                    )]
                },
            ),
            !spec_has_msg(spec_msgs_of(old(self)@, contact_id), msg_id) ==> final(self)@ == old(
                self,
            )@,
    {
        let ghost v0 = self@;
        let eidx = match self.find_entry(contact_id) {
            Some(i) => i,
            None => {
                return ;
            },
        };
        proof {
            assert(msg_ids_unique(self@.entries[eidx as int].messages));
        }
        let midx = match find_msg_in(&self.entries[eidx].messages, msg_id) {
            Some(i) => i,
            None => {
                proof {
                    assert(spec_msgs_of(v0, contact_id) == v0.entries[eidx as int].messages);
                }
                return ;
            },
        };
        let mut e = self.take_entry(eidx);
        let ghost e0 = e@;
        let mut m = e.messages.remove(midx);
        let ghost m0 = m@;
        m.animate = false;
        e.messages.insert(midx, m);
        let ghost e1 = e@;
        proof {
            assert(e1.messages =~= e0.messages.update(
                midx as int,
                MessageView { animate: false, ..m0 },
            ));
        }
        self.put_entry(eidx, e);
        proof {
            assert(self@.entries == v0.entries.remove(eidx as int).insert(eidx as int, e1));
            assert(self@.entries =~= v0.entries.update(eidx as int, e1));
            assert(same_ids(e0.messages, e1.messages));
            lemma_same_ids_wf(e0.messages, e1.messages, v0.next_id);
            lemma_store_update(v0, eidx as int, e1, self@);
            assert(spec_msgs_of(v0, contact_id) == e0.messages);
        }
    }

    /// Appends a reaction to the message with this identifier. The
    /// reaction content is trimmed first; a reaction that is empty
    /// after trimming is ignored, as are unknown contacts and
    /// identifiers.
    pub fn add_reaction(&mut self, contact_id: u64, msg_id: u64, content: &str, sender_id: u64)
        requires
            old(self).wf(),
        ensures
            final(self).wf(),
            final(self)@.next_id == old(self)@.next_id,
            forall|c: u64|
                c != contact_id ==> spec_msgs_of(final(self)@, c) == spec_msgs_of(old(self)@, c),
            forall|c: u64|
                spec_has_contact(final(self)@.entries, c) == spec_has_contact(
                    old(self)@.entries,
                    c,
                ),
            spec_trim(content@).len() == 0 ==> final(self)@ == old(self)@,
            spec_trim(content@).len() > 0 && spec_has_msg(
                spec_msgs_of(old(self)@, contact_id),
                msg_id,
            ) ==> spec_msgs_of(final(self)@, contact_id) == spec_msgs_of(
                old(self)@,
                contact_id,
            ).update(
                spec_msg_index(spec_msgs_of(old(self)@, contact_id), msg_id),
                MessageView {
                    reactions: spec_msgs_of(old(self)@, contact_id)[spec_msg_index(
                        spec_msgs_of(old(self)@, contact_id),
                        msg_id,
                    )].reactions.push(
                        crate::models::ReactionView { content: spec_trim(content@), sender_id },
                    ),
                    ..spec_msgs_of(old(self)@, contact_id)[spec_msg_index(
                        spec_msgs_of(old(self)@, contact_id),
                        msg_id,
                    )]
                },
            ),
            !spec_has_msg(spec_msgs_of(old(self)@, contact_id), msg_id) ==> final(self)@ == old(
                self,
            )@,
    {
        let trimmed = trim_spaces(content);
        if trimmed.as_str().is_empty() {
            return ;
        }
        self.push_reaction(contact_id, msg_id, trimmed, sender_id);
    }

    /// Appends an already-trimmed reaction to the message with this
    /// identifier; unknown contacts or identifiers are silently
    /// ignored.
    fn push_reaction(&mut self, contact_id: u64, msg_id: u64, trimmed: String, sender_id: u64)
        requires
            old(self).wf(),
        ensures
            final(self).wf(),
            final(self)@.next_id == old(self)@.next_id,
            forall|c: u64|
                c != contact_id ==> spec_msgs_of(final(self)@, c) == spec_msgs_of(old(self)@, c),
            forall|c: u64|
                spec_has_contact(final(self)@.entries, c) == spec_has_contact(
                    old(self)@.entries,
                    c,
                ),
            spec_has_msg(spec_msgs_of(old(self)@, contact_id), msg_id) ==> spec_msgs_of(
                final(self)@,
                contact_id,
            ) == spec_msgs_of(old(self)@, contact_id).update(
                spec_msg_index(spec_msgs_of(old(self)@, contact_id), msg_id),
                MessageView {
                    reactions: spec_msgs_of(old(self)@, contact_id)[spec_msg_index(
                        spec_msgs_of(old(self)@, contact_id),
                        msg_id,
                    )].reactions.push(
                        crate::models::ReactionView { content: trimmed@, sender_id },
                    ),
                    ..spec_msgs_of(old(self)@, contact_id)[spec_msg_index(
                        spec_msgs_of(old(self)@, contact_id),
                        msg_id,
                    )]
                },
            ),
            !spec_has_msg(spec_msgs_of(old(self)@, contact_id), msg_id) ==> final(self)@ == old(
                self,
            )@,
    {
        let ghost v0 = self@;
        let ghost rv = crate::models::ReactionView { content: trimmed@, sender_id };
        let eidx = match self.find_entry(contact_id) {
            Some(i) => i,
            None => {
                return ;
            },
        };
        proof {
            assert(msg_ids_unique(self@.entries[eidx as int].messages));
        }
        let midx = match find_msg_in(&self.entries[eidx].messages, msg_id) {
            Some(i) => i,
            None => {
                proof {
                    assert(spec_msgs_of(v0, contact_id) == v0.entries[eidx as int].messages);
                }
                return ;
            },
        };
        let mut e = self.take_entry(eidx);
        let ghost e0 = e@;
        let mut m = e.messages.remove(midx);
        let ghost m0 = m@;
        m.reactions.push(MessageReaction { content: trimmed, sender_id });
        proof {
            assert(m@.reactions =~= m0.reactions.push(rv));
        }
        e.messages.insert(midx, m);
        let ghost e1 = e@;
        proof {
            assert(e1.messages =~= e0.messages.update(
                midx as int,
                MessageView { reactions: m0.reactions.push(rv), ..m0 },
            ));
        }
        self.put_entry(eidx, e);
        proof {
            assert(self@.entries == v0.entries.remove(eidx as int).insert(eidx as int, e1));
            assert(self@.entries =~= v0.entries.update(eidx as int, e1));
            assert(same_ids(e0.messages, e1.messages));
            lemma_same_ids_wf(e0.messages, e1.messages, v0.next_id);
            lemma_store_update(v0, eidx as int, e1, self@);
            assert(spec_msgs_of(v0, contact_id) == e0.messages);
        }
    }

    /// Removes every reaction of the message with this identifier;
    /// unknown contacts or identifiers are silently ignored.
    pub fn clear_reactions(&mut self, contact_id: u64, msg_id: u64)
        requires
            old(self).wf(),
        ensures
            final(self).wf(),
            final(self)@.next_id == old(self)@.next_id,
            forall|c: u64|
                c != contact_id ==> spec_msgs_of(final(self)@, c) == spec_msgs_of(old(self)@, c),
            forall|c: u64|
                spec_has_contact(final(self)@.entries, c) == spec_has_contact(
                    old(self)@.entries,
                    c,
                ),
            spec_has_msg(spec_msgs_of(old(self)@, contact_id), msg_id) ==> spec_msgs_of(
                final(self)@,
                contact_id,
            ) == spec_msgs_of(old(self)@, contact_id).update(
                spec_msg_index(spec_msgs_of(old(self)@, contact_id), msg_id),
                MessageView {
                    reactions: Seq::empty(),
                    ..spec_msgs_of(old(self)@, contact_id)[spec_msg_index(
                        spec_msgs_of(old(self)@, contact_id),
                        msg_id,
                    )]
                },
            ),
            !spec_has_msg(spec_msgs_of(old(self)@, contact_id), msg_id) ==> final(self)@ == old(
                self,
            )@,
    {
        let ghost v0 = self@;
        let eidx = match self.find_entry(contact_id) {
            Some(i) => i,
            None => {
                return ;
            },
        };
        proof {
            assert(msg_ids_unique(self@.entries[eidx as int].messages));
        }
        let midx = match find_msg_in(&self.entries[eidx].messages, msg_id) {
            Some(i) => i,
            None => {
                proof {
                    assert(spec_msgs_of(v0, contact_id) == v0.entries[eidx as int].messages);
                }
                return ;
            },
        };
        let mut e = self.take_entry(eidx);
        let ghost e0 = e@;
        let mut m = e.messages.remove(midx);
        let ghost m0 = m@;
        m.reactions = Vec::new();
        proof {
            assert(m@.reactions =~= Seq::<crate::models::ReactionView>::empty());
        }
        e.messages.insert(midx, m);
        let ghost e1 = e@;
        proof {
            assert(e1.messages =~= e0.messages.update(
                midx as int,
                MessageView { reactions: Seq::empty(), ..m0 },
            ));
        }
        self.put_entry(eidx, e);
        proof {
            assert(self@.entries == v0.entries.remove(eidx as int).insert(eidx as int, e1));
            assert(self@.entries =~= v0.entries.update(eidx as int, e1));
            assert(same_ids(e0.messages, e1.messages));
            lemma_same_ids_wf(e0.messages, e1.messages, v0.next_id);
            lemma_store_update(v0, eidx as int, e1, self@);
            assert(spec_msgs_of(v0, contact_id) == e0.messages);
        }
    }

    /// Clears the entrance-animation flag of every message of the
    /// contact; used when the contact is selected, so stale entrance
    /// animations do not replay. Unknown contacts are ignored.
    pub fn clear_animate_all(&mut self, contact_id: u64)
        requires
            old(self).wf(),
        ensures
            final(self).wf(),
            final(self)@.next_id == old(self)@.next_id,
            forall|c: u64|
                c != contact_id ==> spec_msgs_of(final(self)@, c) == spec_msgs_of(old(self)@, c),
            forall|c: u64|
                spec_has_contact(final(self)@.entries, c) == spec_has_contact(
                    old(self)@.entries,
                    c,
                ),
            spec_msgs_of(final(self)@, contact_id) == spec_clear_animate(
                spec_msgs_of(old(self)@, contact_id),
            ),
            final(self)@ == spec_store_clear_animate(old(self)@, contact_id),
            !spec_has_contact(old(self)@.entries, contact_id) ==> final(self)@ == old(self)@,
    {
        let ghost v0 = self@;
        let eidx = match self.find_entry(contact_id) {
            Some(i) => i,
            None => {
                proof {
                    assert(spec_msgs_of(v0, contact_id) =~= Seq::<MessageView>::empty());
                    assert(spec_clear_animate(spec_msgs_of(v0, contact_id)) =~= Seq::<
                        MessageView,
                    >::empty());
                }
                return ;
            },
        };
        let mut e = self.take_entry(eidx);
        let ghost e0 = e@;
        let n = e.messages.len();
        for i in 0..n
            invariant
                n == e.messages.len(),
                e@.contact_id == e0.contact_id,
                e@.messages.len() == e0.messages.len(),
                forall|k: int|
                    0 <= k < i ==> e@.messages[k] == (MessageView {
                        animate: false,
                        ..e0.messages[k]
                    }),
                forall|k: int| i <= k < n ==> e@.messages[k] == e0.messages[k],
        {
            let ghost at_start = e@.messages;
            let mut m = e.messages.remove(i);
            let ghost m0 = m@;
            m.animate = false;
            e.messages.insert(i, m);
            proof {
                assert(e@.messages =~= at_start.update(
                    i as int,
                    MessageView { animate: false, ..m0 },
                ));
                assert(m0 == e0.messages[i as int]);
            }
        }
        let ghost e1 = e@;
        proof {
            assert(e1.messages =~= spec_clear_animate(e0.messages));
        }
        self.put_entry(eidx, e);
        proof {
            assert(self@.entries == v0.entries.remove(eidx as int).insert(eidx as int, e1));
            assert(self@.entries =~= v0.entries.update(eidx as int, e1));
            assert(same_ids(e0.messages, e1.messages));
            lemma_same_ids_wf(e0.messages, e1.messages, v0.next_id);
            lemma_store_update(v0, eidx as int, e1, self@);
            assert(spec_msgs_of(v0, contact_id) == e0.messages);
            assert(e1 =~= EntryView {
                contact_id: v0.entries[eidx as int].contact_id,
                messages: spec_clear_animate(v0.entries[eidx as int].messages),
            });
            assert(self@ =~= spec_store_clear_animate(v0, contact_id));
        }
    }

    /// Inserts a fresh normal message immediately before the message
    /// carrying `anchor_id`; if the anchor is not found the message is
    /// appended at the tail instead (fail open, not fail closed). The
    /// contact's list is created if it did not exist.
    pub fn insert_before(
        &mut self,
        contact_id: u64,
        anchor_id: u64,
        sender_id: u64,
        content: String,
    ) -> (new_id: u64)
        requires
            old(self).wf(),
            old(self).can_assign_id(),
        ensures
            final(self).wf(),
            new_id == old(self)@.next_id,
            final(self)@.next_id == old(self)@.next_id + 1,
            spec_msgs_of(final(self)@, contact_id) == spec_msgs_of(old(self)@, contact_id).insert(
                spec_insert_pos(spec_msgs_of(old(self)@, contact_id), anchor_id),
                new_msg_view(new_id, sender_id, content@, MessageKind::Normal),
            ),
            forall|c: u64|
                c != contact_id ==> spec_msgs_of(final(self)@, c) == spec_msgs_of(old(self)@, c),
            forall|c: u64|
                spec_has_contact(final(self)@.entries, c) == (spec_has_contact(
                    old(self)@.entries,
                    c,
                ) || c == contact_id),
    {
        let ghost v0 = self@;
        let new_id = self.next_id;
        self.next_id = self.next_id + 1;
        let msg = Message {
            id: new_id,
            sender_id,
            content,
            kind: MessageKind::Normal,
            animate: true,
            reactions: Vec::new(),
        };
        proof {
            assert(msg@.reactions =~= Seq::<crate::models::ReactionView>::empty());
            assert(msg@ == new_msg_view(new_id, sender_id, msg.content@, MessageKind::Normal));
        }
        match self.find_entry(contact_id) {
            Some(eidx) => {
                proof {
                    assert(msg_ids_unique(self@.entries[eidx as int].messages));
                }
                let pos = match find_msg_in(&self.entries[eidx].messages, anchor_id) {
                    Some(i) => i,
                    None => self.entries[eidx].messages.len(),
                };
                let ghost v1 = self@;
                let mut e = self.take_entry(eidx);
                let ghost e0 = e@;
                e.messages.insert(pos, msg);
                let ghost e1 = e@;
                proof {
                    assert(e1.messages =~= e0.messages.insert(pos as int, msg@));
                    assert(pos as int == spec_insert_pos(e0.messages, anchor_id));
                }
                self.put_entry(eidx, e);
                proof {
                    assert(self@.entries == v1.entries.remove(eidx as int).insert(
                        eidx as int,
                        e1,
                    ));
                    assert(self@.entries =~= v1.entries.update(eidx as int, e1));
                    lemma_insert_msg_wf(e0.messages, pos as int, msg@, v0.next_id);
                    lemma_store_update(v1, eidx as int, e1, self@);
                    assert(spec_msgs_of(v1, contact_id) == e0.messages);
                    assert(spec_msgs_of(v0, contact_id) == e0.messages);
                }
            },
            None => {
                let ghost v1 = self@;
                let mut msgs: Vec<Message> = Vec::new();
                msgs.push(msg);
                let e = StoreEntry { contact_id, messages: msgs };
                let ghost e1 = e@;
                proof {
                    assert(e1.messages =~= Seq::<MessageView>::empty().push(msg@));
                }
                let n = self.entries.len();
                self.put_entry(n, e);
                proof {
                    assert(self@.entries =~= v1.entries.push(e1));
                    lemma_msgs_of_push(v1, e1, self@);
                    assert(spec_msgs_of(v0, contact_id) =~= Seq::<MessageView>::empty());
                    assert(spec_insert_pos(spec_msgs_of(v0, contact_id), anchor_id) == 0);
                    assert(spec_msgs_of(self@, contact_id) =~= spec_msgs_of(
                        v0,
                        contact_id,
                    ).insert(0, msg@));
                    assert forall|i: int| 0 <= i < self@.entries.len() implies msg_ids_unique(
                        #[trigger] self@.entries[i].messages,
                    ) && msg_ids_below(self@.entries[i].messages, self@.next_id) by {
                        if i < v0.entries.len() {
                            assert(self@.entries[i] == v0.entries[i]);
                            assert(msg_ids_unique(v0.entries[i].messages));
                            assert(msg_ids_below(v0.entries[i].messages, v0.next_id));
                        } else {
                            assert(self@.entries[i].messages == e1.messages);
                        }
                    }
                }
            },
        }
        new_id
    }

    /// Replaces the whole message list of the contact, creating the
    /// list if it did not exist; used to clear a chat. The new list
    /// must carry distinct identifiers already handed out.
    pub fn replace_all_messages(&mut self, contact_id: u64, msgs: Vec<Message>)
        requires
            old(self).wf(),
            msg_ids_unique(msgs.deep_view()),
            msg_ids_below(msgs.deep_view(), old(self)@.next_id),
        ensures
            final(self).wf(),
            final(self)@.next_id == old(self)@.next_id,
            spec_msgs_of(final(self)@, contact_id) == msgs.deep_view(),
            forall|c: u64|
                c != contact_id ==> spec_msgs_of(final(self)@, c) == spec_msgs_of(old(self)@, c),
            forall|c: u64|
                spec_has_contact(final(self)@.entries, c) == (spec_has_contact(
                    old(self)@.entries,
                    c,
                ) || c == contact_id),
    {
        let ghost v0 = self@;
        let ghost new_msgs = msgs.deep_view();
        match self.find_entry(contact_id) {
            Some(eidx) => {
                proof {
                    assert(v0.entries[eidx as int].contact_id == contact_id);
                }
                let mut e = self.take_entry(eidx);
                e.messages = msgs;
                let ghost e1 = e@;
                self.put_entry(eidx, e);
                proof {
                    assert(self@.entries == v0.entries.remove(eidx as int).insert(
                        eidx as int,
                        e1,
                    ));
                    assert(self@.entries =~= v0.entries.update(eidx as int, e1));
                    lemma_store_update(v0, eidx as int, e1, self@);
                    assert forall|c: u64|
                        spec_has_contact(self@.entries, c) == (spec_has_contact(v0.entries, c)
                            || c == contact_id) by {}
                }
            },
            None => {
                let e = StoreEntry { contact_id, messages: msgs };
                let ghost e1 = e@;
                let n = self.entries.len();
                self.put_entry(n, e);
                proof {
                    assert(self@.entries =~= v0.entries.push(e1));
                    lemma_msgs_of_push(v0, e1, self@);
                    assert forall|i: int| 0 <= i < self@.entries.len() implies msg_ids_unique(
                        #[trigger] self@.entries[i].messages,
                    ) && msg_ids_below(self@.entries[i].messages, self@.next_id) by {
                        if i < v0.entries.len() {
                            assert(self@.entries[i] == v0.entries[i]);
                            assert(msg_ids_unique(v0.entries[i].messages));
                            assert(msg_ids_below(v0.entries[i].messages, v0.next_id));
                        } else {
                            assert(self@.entries[i].messages == e1.messages);
                        }
                    }
                }
            },
        }
    }

    /// Removes the contact's entry and all its messages; unknown
    /// contacts are silently ignored.
    pub fn remove_contact(&mut self, contact_id: u64)
        requires
            old(self).wf(),
        ensures
            final(self).wf(),
            final(self)@.next_id == old(self)@.next_id,
            !spec_has_contact(final(self)@.entries, contact_id),
            spec_msgs_of(final(self)@, contact_id) == Seq::<MessageView>::empty(),
            forall|c: u64|
                c != contact_id ==> spec_msgs_of(final(self)@, c) == spec_msgs_of(old(self)@, c),
            forall|c: u64|
                c != contact_id ==> spec_has_contact(final(self)@.entries, c) == spec_has_contact(
                    old(self)@.entries,
                    c,
                ),
            !spec_has_contact(old(self)@.entries, contact_id) ==> final(self)@ == old(self)@,
    {
        let ghost v0 = self@;
        let eidx = match self.find_entry(contact_id) {
            Some(i) => i,
            None => {
                return ;
            },
        };
        let _e = self.take_entry(eidx);
        proof {
            lemma_msgs_of_remove(v0, eidx as int, self@);
            assert(v0.entries[eidx as int].contact_id == contact_id);
            assert forall|i: int| 0 <= i < self@.entries.len() implies msg_ids_unique(
                #[trigger] self@.entries[i].messages,
            ) && msg_ids_below(self@.entries[i].messages, self@.next_id) by {
                let i0 = if i < eidx { i } else { i + 1 };
                assert(self@.entries[i] == v0.entries[i0]);
                assert(msg_ids_unique(v0.entries[i0].messages));
                assert(msg_ids_below(v0.entries[i0].messages, v0.next_id));
            }
        }
    }

    /// Hands out a fresh identifier for entities created beside the
    /// message lists (operators, group contacts), so identifiers never
    /// collide anywhere in the application state.
    pub fn assign_id(&mut self) -> (r: u64)
        requires
            old(self).wf(),
            old(self).can_assign_id(),
        ensures
            final(self).wf(),
            r == old(self)@.next_id,
            final(self)@.next_id == old(self)@.next_id + 1,
            final(self)@.entries == old(self)@.entries,
    {
        let r = self.next_id;
        self.next_id = self.next_id + 1;
        r
    }

    /// A copy of the contact's message list, empty if the contact has
    /// no entry; the replay engine reads such a snapshot.
    pub fn snapshot(&self, contact_id: u64) -> (r: Vec<Message>)
        requires
            contact_ids_unique(self@.entries),
        ensures
            r.deep_view() == spec_msgs_of(self@, contact_id),
    {
        match self.find_entry(contact_id) {
            Some(eidx) => clone_messages(&self.entries[eidx].messages),
            None => {
                let r: Vec<Message> = Vec::new();
                assert(r.deep_view() =~= spec_msgs_of(self@, contact_id));
                r
            },
        }
    }

    /// Decides whether the store is well-formed: entries keyed by
    /// distinct contacts, message identifiers distinct and below the
    /// fresh-id counter. Loaded state is admitted only through this
    /// check.
    pub fn check_wf(&self) -> (b: bool)
        ensures
            b == self.wf(),
    {
        let n = self.entries.len();
        for i in 0..n
            invariant
                n == self.entries.len(),
                forall|a: int, b: int|
                    0 <= a < b < n && a < i ==> self@.entries[a].contact_id
                        != self@.entries[b].contact_id,
                forall|k: int|
                    0 <= k < i ==> msg_ids_unique(#[trigger] self@.entries[k].messages)
                        && msg_ids_below(self@.entries[k].messages, self@.next_id),
        {
            if !check_msgs_wf(&self.entries[i].messages, self.next_id) {
                proof {
                    assert(!(msg_ids_unique(self@.entries[i as int].messages) && msg_ids_below(
                        self@.entries[i as int].messages,
                        self@.next_id,
                    )));
                    assert(!self.wf());
                }
                return false;
            }
            let mut j = i + 1;
            while j < n
                invariant
                    n == self.entries.len(),
                    i < n,
                    i + 1 <= j <= n,
                    forall|k: int|
                        i < k < j ==> self@.entries[k].contact_id != self@.entries[
                            i as int
                        ].contact_id,
                decreases n - j,
            {
                if self.entries[j].contact_id == self.entries[i].contact_id {
                    proof {
                        assert(self@.entries[i as int].contact_id == self@.entries[
                            j as int
                        ].contact_id);
                        assert(!contact_ids_unique(self@.entries));
                    }
                    return false;
                }
                j = j + 1;
            }
        }
        true
    }

    /// A message identifier present anywhere in the store is strictly
    /// below the fresh-id counter, so it can never equal an identifier
    /// the store hands out later: identifiers are never reused, even
    /// after the message is deleted.
    pub proof fn lemma_present_id_below_counter(v: StoreView, contact_id: u64, id: u64)
        requires
            store_wf(v),
            spec_has_msg(spec_msgs_of(v, contact_id), id),
        ensures
            id < v.next_id,
    {
        let msgs = spec_msgs_of(v, contact_id);
        let i = spec_msg_index(msgs, id);
        assert(msgs[i].id == id);
        let k = spec_entry_index(v.entries, contact_id);
        assert(msg_ids_below(v.entries[k].messages, v.next_id));
    }
}

} // verus!

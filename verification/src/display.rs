//! Avatar grouping of the rendered message list: a non-status message
//! shows its sender's avatar when it opens a new group, that is when
//! the previous non-status message (or, at the head of the list, the
//! prior sender the replay context recorded) came from someone else.

use vstd::prelude::*;

use crate::models::{Message, MessageKind, MessageView};

verus! {

/// The sender of the last non-status message strictly before position
/// `i`, or nothing when there is none.
pub open spec fn last_sender_before(msgs: Seq<MessageView>, i: int) -> Option<u64>
    decreases i,
{
    if i <= 0 {
        None
    } else if msgs[i - 1].kind != MessageKind::Status {
        Some(msgs[i - 1].sender_id)
    } else {
        last_sender_before(msgs, i - 1)
    }
}

/// Whether the message at position `i` shows its sender's avatar.
/// Status lines never do. The first non-status message shows it
/// always during a replay (`force_first`), and otherwise unless the
/// recorded prior sender sent it too; later messages show it when the
/// sender changes.
pub open spec fn spec_avatar_flag(
    msgs: Seq<MessageView>,
    i: int,
    first_prev_sender: Option<u64>,
    force_first: bool,
) -> bool {
    if msgs[i].kind == MessageKind::Status {
        false
    } else {
        match last_sender_before(msgs, i) {
            Some(s) => s != msgs[i].sender_id,
            None => force_first || match first_prev_sender {
                Some(p) => p != msgs[i].sender_id,
                None => true,
            },
        }
    }
}

/// Computes the avatar flag of every rendered message.
pub fn avatar_flags(
    messages: &Vec<Message>,
    first_prev_sender: Option<u64>,
    force_first: bool,
) -> (r: Vec<bool>)
    ensures
        r@.len() == messages.deep_view().len(),
        forall|i: int|
            0 <= i < r@.len() ==> r@[i] == spec_avatar_flag(
                messages.deep_view(),
                i,
                first_prev_sender,
                force_first,
            ),
{
    let ghost msgs = messages.deep_view();
    let n = messages.len();
    let mut out: Vec<bool> = Vec::new();
    let mut last_sender: Option<u64> = None;
    for i in 0..n
        invariant
            n == messages.len(),
            msgs == messages.deep_view(),
            out@.len() == i,
            last_sender == last_sender_before(msgs, i as int),
            forall|k: int|
                0 <= k < i ==> out@[k] == spec_avatar_flag(
                    msgs,
                    k,
                    first_prev_sender,
                    force_first,
                ),
    {
        let is_status = matches!(messages[i].kind, MessageKind::Status);
        if is_status {
            out.push(false);
        } else {
            let sender = messages[i].sender_id;
            let flag = match last_sender {
                Some(s) => s != sender,
                None => force_first || match first_prev_sender {
                    Some(p) => p != sender,
                    None => true,
                },
            };
            out.push(flag);
            last_sender = Some(sender);
        }
        proof {
            assert(msgs[i as int] == messages.deep_view()[i as int]);
        }
    }
    out
}

} // verus!

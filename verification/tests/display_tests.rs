//! Avatar grouping of the rendered message list.

use baker::display::avatar_flags;
use baker::models::{Message, MessageKind};

fn msg(id: u64, sender_id: u64, kind: MessageKind) -> Message {
    Message {
        id,
        sender_id,
        content: format!("m{id}"),
        kind,
        animate: false,
        reactions: Vec::new(),
    }
}

#[test]
fn avatar_shown_when_the_sender_changes() {
    let msgs = vec![
        msg(1, 10, MessageKind::Normal),
        msg(2, 10, MessageKind::Normal),
        msg(3, 20, MessageKind::Normal),
        msg(4, 10, MessageKind::Normal),
    ];
    assert_eq!(avatar_flags(&msgs, None, false), vec![true, false, true, true]);
}

#[test]
fn status_lines_do_not_break_a_group() {
    let msgs = vec![
        msg(1, 10, MessageKind::Normal),
        msg(2, 10, MessageKind::Status),
        msg(3, 10, MessageKind::Normal),
    ];
    assert_eq!(avatar_flags(&msgs, None, false), vec![true, false, false]);
}

#[test]
fn prior_sender_suppresses_the_first_avatar() {
    let msgs = vec![msg(1, 10, MessageKind::Normal)];
    // The replay starts mid-conversation after a message of the same
    // sender: no new group.
    assert_eq!(avatar_flags(&msgs, Some(10), false), vec![false]);
    assert_eq!(avatar_flags(&msgs, Some(20), false), vec![true]);
    // Forcing the first avatar wins over the recorded prior sender.
    assert_eq!(avatar_flags(&msgs, Some(10), true), vec![true]);
}

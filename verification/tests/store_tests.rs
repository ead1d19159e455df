//! The message store: fresh identifiers, positional inserts, reaction
//! and animation bookkeeping.

use baker::models::MessageKind;
use baker::store::MessageStore;

#[test]
fn append_assigns_fresh_increasing_ids() {
    let mut store = MessageStore::new();
    let a = store.append_message(5, 2, "one".to_string(), MessageKind::Normal);
    let b = store.append_message(5, 2, "two".to_string(), MessageKind::Normal);
    assert!(a < b);
    let msgs = store.snapshot(5);
    assert_eq!(msgs.len(), 2);
    assert_eq!(msgs[0].content, "one");
    assert_eq!(msgs[1].content, "two");
    assert!(msgs[0].animate && msgs[1].animate);
    assert!(msgs[0].reactions.is_empty());
}

#[test]
fn deleted_id_is_never_reused() {
    let mut store = MessageStore::new();
    let a = store.append_message(5, 2, "hello".to_string(), MessageKind::Normal);
    store.delete_message(5, a);
    assert_eq!(store.snapshot(5).len(), 0);
    let b = store.append_message(5, 2, "hello".to_string(), MessageKind::Normal);
    assert_ne!(a, b);
}

#[test]
fn insert_before_anchor_and_fail_open() {
    let mut store = MessageStore::new();
    let a = store.append_message(5, 2, "first".to_string(), MessageKind::Normal);
    let _b = store.append_message(5, 2, "third".to_string(), MessageKind::Normal);
    let c = store.insert_before(5, a, 2, "zeroth".to_string());
    let msgs = store.snapshot(5);
    assert_eq!(msgs[0].id, c);
    assert_eq!(msgs[0].content, "zeroth");
    // A missing anchor appends at the tail instead of failing.
    let d = store.insert_before(5, 999_999, 2, "last".to_string());
    let msgs = store.snapshot(5);
    assert_eq!(msgs[msgs.len() - 1].id, d);
    assert_eq!(msgs[msgs.len() - 1].content, "last");
}

#[test]
fn edit_changes_only_the_content() {
    let mut store = MessageStore::new();
    let a = store.append_message(5, 2, "tpyo".to_string(), MessageKind::Normal);
    store.edit_content(5, a, "typo".to_string());
    let msgs = store.snapshot(5);
    assert_eq!(msgs[0].content, "typo");
    assert_eq!(msgs[0].id, a);
    // Unknown ids are silently ignored.
    store.edit_content(5, 999, "x".to_string());
    assert_eq!(store.snapshot(5).len(), 1);
}

#[test]
fn reactions_are_trimmed_and_empty_ones_ignored() {
    let mut store = MessageStore::new();
    let a = store.append_message(5, 2, "hi".to_string(), MessageKind::Normal);
    store.add_reaction(5, a, "  <3  ", 9);
    let msgs = store.snapshot(5);
    assert_eq!(msgs[0].reactions.len(), 1);
    assert_eq!(msgs[0].reactions[0].content, "<3");
    assert_eq!(msgs[0].reactions[0].sender_id, 9);
    store.add_reaction(5, a, "   ", 9);
    assert_eq!(store.snapshot(5)[0].reactions.len(), 1);
    store.clear_reactions(5, a);
    assert!(store.snapshot(5)[0].reactions.is_empty());
}

#[test]
fn animate_off_is_idempotent_and_tolerates_missing_ids() {
    let mut store = MessageStore::new();
    let a = store.append_message(5, 2, "hi".to_string(), MessageKind::Normal);
    assert!(store.snapshot(5)[0].animate);
    store.set_animate_false(5, a);
    assert!(!store.snapshot(5)[0].animate);
    store.set_animate_false(5, a);
    assert!(!store.snapshot(5)[0].animate);
    // The deferred timer may fire after the message was deleted.
    store.delete_message(5, a);
    store.set_animate_false(5, a);
    assert_eq!(store.snapshot(5).len(), 0);
}

#[test]
fn clear_animate_all_touches_one_contact() {
    let mut store = MessageStore::new();
    store.append_message(5, 2, "a".to_string(), MessageKind::Normal);
    store.append_message(5, 2, "b".to_string(), MessageKind::Normal);
    store.append_message(6, 2, "c".to_string(), MessageKind::Normal);
    store.clear_animate_all(5);
    assert!(store.snapshot(5).iter().all(|m| !m.animate));
    assert!(store.snapshot(6).iter().all(|m| m.animate));
}

#[test]
fn replace_and_remove_contact() {
    let mut store = MessageStore::new();
    store.append_message(5, 2, "a".to_string(), MessageKind::Normal);
    store.append_message(6, 2, "kept".to_string(), MessageKind::Normal);
    store.replace_all_messages(5, Vec::new());
    assert_eq!(store.snapshot(5).len(), 0);
    assert_eq!(store.snapshot(6).len(), 1);
    store.remove_contact(6);
    assert_eq!(store.snapshot(6).len(), 0);
    assert_eq!(store.snapshot(5).len(), 0);
}

#[test]
fn check_wf_accepts_fresh_store() {
    let mut store = MessageStore::new();
    store.append_message(5, 2, "a".to_string(), MessageKind::Normal);
    assert!(store.check_wf());
}

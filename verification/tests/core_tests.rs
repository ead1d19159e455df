//! The application core around the replay engine: sending, editing,
//! contact handling, stickers and the projection.

use baker::engine::ChatCore;
use baker::models::{ChatHeadStyle, Contact, MessageKind, Operator};
use baker::state::AppState;

fn contact(id: u64) -> Contact {
    Contact {
        id,
        unread_count: 0,
        chat_head_style: ChatHeadStyle::Default,
        name: format!("contact-{id}"),
        avatar_url: String::new(),
        participant_ids: vec![id],
        is_group: false,
    }
}

fn operator(id: u64, name: &str) -> Operator {
    Operator { id, name: name.to_string(), avatar_url: String::new() }
}

#[test]
fn sending_requires_a_selected_contact() {
    let mut core = ChatCore::from_state(AppState::default()).unwrap();
    assert!(core.add_message(7, "hello".to_string(), MessageKind::Normal).is_none());
    assert!(core.visible_messages().is_empty());
}

#[test]
fn send_receipt_tells_sound_and_animate_off_apart() {
    let mut st = AppState::default();
    let other = 1000;
    st.contacts.push(contact(other));
    let mut core = ChatCore::from_state(st).unwrap();
    core.select_contact(Some(other));

    let me = core.user_id();
    let mine = core.add_message(me, "hi".to_string(), MessageKind::Normal).unwrap();
    assert!(mine.self_sender);
    assert_eq!(mine.contact_id, other);
    let theirs = core.add_message(other, "hey".to_string(), MessageKind::Sticker).unwrap();
    assert!(!theirs.self_sender);
    assert_ne!(mine.msg_id, theirs.msg_id);

    let visible = core.visible_messages();
    assert_eq!(visible.len(), 2);
    assert_eq!(visible[0].content, "hi");
    assert_eq!(visible[1].kind, MessageKind::Sticker);

    // The deferred animate-off against the store.
    assert!(visible[0].animate);
    core.animate_off_in_store(mine.contact_id, mine.msg_id);
    assert!(!core.visible_messages()[0].animate);
}

#[test]
fn insert_edit_delete_and_reactions() {
    let mut st = AppState::default();
    let other = 1000;
    st.contacts.push(contact(other));
    let mut core = ChatCore::from_state(st).unwrap();
    core.select_contact(Some(other));

    let me = core.user_id();
    let a = core.add_message(other, "world".to_string(), MessageKind::Normal).unwrap();
    let ins = core.insert_message(a.msg_id, "hello".to_string(), None).unwrap();
    let visible = core.visible_messages();
    assert_eq!(visible[0].id, ins.msg_id);
    assert_eq!(visible[0].content, "hello");
    assert_eq!(visible[0].sender_id, me);

    core.edit_message(a.msg_id, "world!".to_string());
    assert_eq!(core.visible_messages()[1].content, "world!");

    core.add_reaction(a.msg_id, "  :) ");
    let visible = core.visible_messages();
    assert_eq!(visible[1].reactions.len(), 1);
    assert_eq!(visible[1].reactions[0].content, ":)");
    assert_eq!(visible[1].reactions[0].sender_id, me);
    core.add_reaction(a.msg_id, "   ");
    assert_eq!(core.visible_messages()[1].reactions.len(), 1);
    core.delete_reaction(a.msg_id);
    assert!(core.visible_messages()[1].reactions.is_empty());

    core.delete_message(ins.msg_id);
    let visible = core.visible_messages();
    assert_eq!(visible.len(), 1);
    assert_eq!(visible[0].content, "world!");
}

#[test]
fn deleted_message_id_is_not_reused_by_the_core() {
    let mut st = AppState::default();
    let other = 1000;
    st.contacts.push(contact(other));
    let mut core = ChatCore::from_state(st).unwrap();
    core.select_contact(Some(other));
    let a = core.add_message(other, "same content".to_string(), MessageKind::Normal).unwrap();
    core.delete_message(a.msg_id);
    let b = core.add_message(other, "same content".to_string(), MessageKind::Normal).unwrap();
    assert_ne!(a.msg_id, b.msg_id);
}

#[test]
fn selection_clears_entrance_animations() {
    let mut st = AppState::default();
    let other = 1000;
    st.contacts.push(contact(other));
    st.messages.append_message(other, other, "a".to_string(), MessageKind::Normal);
    let mut core = ChatCore::from_state(st).unwrap();
    core.select_contact(Some(other));
    assert!(core.visible_messages().iter().all(|m| !m.animate));
}

#[test]
fn open_single_chat_is_idempotent_and_selects() {
    let mut core = ChatCore::from_state(AppState::default()).unwrap();
    let op = operator(42, "Ana");
    core.open_single_chat(&op);
    assert_eq!(core.selected_contact(), Some(42));
    assert_eq!(core.app_state().contacts.len(), 1);
    assert_eq!(core.app_state().contacts[0].name, "Ana");
    core.open_single_chat(&op);
    assert_eq!(core.app_state().contacts.len(), 1);
}

#[test]
fn group_chats_get_fresh_ids() {
    let mut core = ChatCore::from_state(AppState::default()).unwrap();
    let g1 = core.create_group_chat("team".to_string(), String::new(), vec![1, 2]);
    let g2 = core.create_group_chat("band".to_string(), String::new(), vec![2, 3]);
    assert_ne!(g1, g2);
    assert_eq!(core.selected_contact(), Some(g2));
    assert!(core.app_state().contacts.iter().all(|c| c.is_group));
}

#[test]
fn clear_chat_removes_contact_and_messages() {
    let mut st = AppState::default();
    let other = 1000;
    st.contacts.push(contact(other));
    st.messages.append_message(other, other, "a".to_string(), MessageKind::Normal);
    let mut core = ChatCore::from_state(st).unwrap();
    core.select_contact(Some(other));
    core.clear_chat();
    assert_eq!(core.selected_contact(), None);
    assert!(core.app_state().contacts.is_empty());
    assert!(core.visible_messages().is_empty());
}

#[test]
fn chat_head_style_updates_the_selected_contact() {
    let mut st = AppState::default();
    let other = 1000;
    st.contacts.push(contact(other));
    let mut core = ChatCore::from_state(st).unwrap();
    core.select_contact(Some(other));
    core.update_chat_head_style(ChatHeadStyle::Alt);
    assert_eq!(core.app_state().contacts[0].chat_head_style, ChatHeadStyle::Alt);
}

#[test]
fn profile_and_sticker_bookkeeping() {
    let mut st = AppState::default();
    st.add_sticker("  sticker.png ");
    st.add_sticker("sticker.png");
    st.add_sticker("   ");
    // Trimming strips the whole Unicode whitespace set, as str::trim
    // does.
    st.add_sticker("\u{a0}wide.png\u{3000}");
    st.add_sticker("\u{2028}\u{2009}");
    assert_eq!(st.stickers, vec!["sticker.png".to_string(), "wide.png".to_string()]);

    let op_id = st.add_operator("Ana".to_string(), "ana.png".to_string());
    st.update_operator(op_id, "Anna".to_string(), "anna.png".to_string());
    assert_eq!(st.operators[0].name, "Anna");
    st.delete_operator(op_id);
    assert!(st.operators.is_empty());

    let mut core = ChatCore::from_state(st).unwrap();
    core.set_profile("New Name".to_string(), "avatar.png".to_string());
    assert_eq!(core.app_state().user_profile.name, "New Name");
    assert_eq!(core.app_state().user_profile.avatar_url, "avatar.png");
}

#[test]
fn operator_crud_through_the_core() {
    let mut core = ChatCore::from_state(AppState::default()).unwrap();
    let id = core.add_operator("Ana".to_string(), "ana.png".to_string());
    let op = core.app_state().operators[0].clone_op();
    core.open_single_chat(&op);
    core.update_operator(id, "Anna".to_string(), "anna.png".to_string());
    assert_eq!(core.app_state().operators[0].name, "Anna");
    // A contact created from the participant follows the rename.
    assert_eq!(core.app_state().contacts[0].name, "Anna");
    core.delete_operator(id);
    assert!(core.app_state().operators.is_empty());
}

#[test]
fn ill_formed_state_is_refused() {
    let mut good = AppState::default();
    good.messages.append_message(5, 1, "a".to_string(), MessageKind::Normal);
    assert!(ChatCore::from_state(good).is_some());

    fn msg(id: u64) -> baker::models::Message {
        baker::models::Message {
            id,
            sender_id: 1,
            content: "x".to_string(),
            kind: MessageKind::Normal,
            animate: false,
            reactions: Vec::new(),
        }
    }
    // Duplicate message identifiers break the never-reuse guarantee.
    let dup_entry = baker::store::StoreEntry { contact_id: 5, messages: vec![msg(1), msg(1)] };
    let mut bad = AppState::default();
    bad.messages = baker::store::MessageStore::from_parts(vec![dup_entry], 10);
    assert!(ChatCore::from_state(bad).is_none());

    // Identifiers at or above the fresh-id counter are rejected too.
    let high_entry = baker::store::StoreEntry { contact_id: 5, messages: vec![msg(10)] };
    let mut bad = AppState::default();
    bad.messages = baker::store::MessageStore::from_parts(vec![high_entry], 10);
    assert!(ChatCore::from_state(bad).is_none());

    // So are two entries for one contact.
    let e1 = baker::store::StoreEntry { contact_id: 5, messages: vec![msg(1)] };
    let e2 = baker::store::StoreEntry { contact_id: 5, messages: vec![msg(2)] };
    let mut bad = AppState::default();
    bad.messages = baker::store::MessageStore::from_parts(vec![e1, e2], 10);
    assert!(ChatCore::from_state(bad).is_none());
}

//! Migration of the legacy persisted format.

use baker::migrate::{
    migrate_legacy_state, LegacyAppState, LegacyContact, LegacyMessage, LegacyOperator,
    LegacyUserProfile,
};
use baker::models::{BackgroundSettings, ChatHeadStyle, MessageKind};

fn legacy_message(id: u64, sender_id: u64, content: &str) -> LegacyMessage {
    LegacyMessage {
        id,
        sender_id,
        content: content.to_string(),
        timestamp: "2021-01-01 10:00".to_string(),
        animate: false,
    }
}

#[test]
fn migration_remaps_ids_and_keeps_content() {
    let legacy = LegacyAppState {
        user_profile: LegacyUserProfile {
            name: "Old Me".to_string(),
            avatar_url: "me.png".to_string(),
        },
        contacts: vec![LegacyContact {
            id: 3,
            unread_count: 2,
            chat_head_style: ChatHeadStyle::Alt,
        }],
        messages: vec![(
            3,
            vec![
                legacy_message(1, 3, "from them"),
                legacy_message(2, 0, "from me"),
            ],
        )],
        operators: vec![
            LegacyOperator {
                id: 3,
                name: "Ana".to_string(),
                avatar_url: "ana.png".to_string(),
            },
            LegacyOperator {
                id: 4,
                name: "Ben".to_string(),
                avatar_url: "ben.png".to_string(),
            },
        ],
        background: BackgroundSettings::default(),
    };

    let state = migrate_legacy_state(legacy);

    assert_eq!(state.user_profile.name, "Old Me");
    assert_eq!(state.user_profile.avatar_url, "me.png");
    assert_eq!(state.operators.len(), 2);
    assert_eq!(state.operators[0].name, "Ana");
    assert_eq!(state.operators[1].name, "Ben");
    assert_ne!(state.operators[0].id, state.operators[1].id);
    // Fresh identifiers, not the legacy numeric ones.
    assert_ne!(state.operators[0].id, 3);

    assert_eq!(state.contacts.len(), 1);
    let contact = &state.contacts[0];
    assert_eq!(contact.unread_count, 2);
    assert_eq!(contact.chat_head_style, ChatHeadStyle::Alt);
    assert!(!contact.is_group);
    // The contact shares the identifier of the operator it came from
    // and inherits its display data.
    assert_eq!(contact.id, state.operators[0].id);
    assert_eq!(contact.name, "Ana");
    assert_eq!(contact.avatar_url, "ana.png");
    assert_eq!(contact.participant_ids, vec![contact.id]);

    let msgs = state.messages.snapshot(contact.id);
    assert_eq!(msgs.len(), 2);
    assert_eq!(msgs[0].content, "from them");
    assert_eq!(msgs[1].content, "from me");
    assert!(msgs.iter().all(|m| m.kind == MessageKind::Normal));
    assert!(msgs.iter().all(|m| m.reactions.is_empty()));
    // The legacy sender 0 stands for the user; other senders are
    // remapped away from the user.
    assert_ne!(msgs[0].sender_id, state.user_profile.id);
    assert_eq!(msgs[0].sender_id, contact.id);
    assert_eq!(msgs[1].sender_id, state.user_profile.id);
    assert_ne!(msgs[0].id, msgs[1].id);

    assert!(state.stickers.is_empty());
    assert_eq!(state.update_snooze_date, None);
    assert!(!state.hide_tutorial);
    assert!(state.messages.check_wf());
}

#[test]
fn migration_of_an_empty_legacy_state() {
    let legacy = LegacyAppState {
        user_profile: LegacyUserProfile { name: String::new(), avatar_url: String::new() },
        contacts: Vec::new(),
        messages: Vec::new(),
        operators: Vec::new(),
        background: BackgroundSettings::default(),
    };
    let state = migrate_legacy_state(legacy);
    assert!(state.contacts.is_empty());
    assert!(state.operators.is_empty());
    assert!(state.messages.check_wf());
}

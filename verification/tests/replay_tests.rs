//! The replay engine: the timed state machine, its cancellation token
//! and the projection.

use baker::engine::ChatCore;
use baker::models::{ChatHeadStyle, Contact, MessageKind};
use baker::replay::{PendingTyping, ReplayTypingPhase, SoundCue};
use baker::state::AppState;
use baker::timing::{ReplayIntervalMode, ReplaySettings};

fn contact(id: u64) -> Contact {
    Contact {
        id,
        unread_count: 0,
        chat_head_style: ChatHeadStyle::Default,
        name: format!("contact-{id}"),
        avatar_url: String::new(),
        participant_ids: vec![id],
        is_group: false,
    }
}

fn fixed_settings(fixed_ms: u64, gap_ms: u64) -> ReplaySettings {
    ReplaySettings { mode: ReplayIntervalMode::Fixed, fixed_ms, per_char_ms: 0, gap_ms }
}

#[test]
fn replay_timeline_fixed_mode() {
    let mut st = AppState::default();
    let me = st.user_profile.id;
    let other = 1000;
    st.contacts.push(contact(other));
    let id0 = st.messages.append_message(other, other, "hi".to_string(), MessageKind::Normal);
    let id1 = st.messages.append_message(other, me, "yo".to_string(), MessageKind::Normal);
    let mut core = ChatCore::from_state(st).unwrap();
    core.select_contact(Some(other));

    let mut run = core.start_replay(id0, fixed_settings(100, 50)).unwrap();
    // Starting a replay resets the view list before any message lands.
    assert!(core.current_replay_messages().is_empty());
    assert!(core.is_replay_active_for(other));
    assert_eq!(core.replay_prior_sender(), None);
    assert_eq!(core.current_pending_typing(), None);

    // Gap before the first message.
    let o = core.replay_step(&mut run);
    assert_eq!(o.wait_ms, 50);
    assert!(!o.finished);
    assert!(core.current_replay_messages().is_empty());

    // "hi" appears at once in its typing-wait state.
    let o = core.replay_step(&mut run);
    assert_eq!(o.wait_ms, 100);
    assert_eq!(o.sound, None);
    assert_eq!(o.animate_off, Some(id0));
    let view = core.current_replay_messages();
    assert_eq!(view.len(), 1);
    assert_eq!(view[0].content, "hi");
    assert!(view[0].animate);
    assert_eq!(
        core.current_pending_typing(),
        Some(PendingTyping { id: id0, phase: ReplayTypingPhase::Typing }),
    );

    // Reveal phase with the received sound, then the settle wait.
    let o = core.replay_step(&mut run);
    assert_eq!(o.wait_ms, 200);
    assert_eq!(o.sound, Some(SoundCue::OtherSender));
    assert_eq!(
        core.current_pending_typing(),
        Some(PendingTyping { id: id0, phase: ReplayTypingPhase::Reveal }),
    );

    // Indicator clears; no reactions to patch.
    let o = core.replay_step(&mut run);
    assert_eq!(o.wait_ms, 0);
    assert_eq!(core.current_pending_typing(), None);

    // Gap before the self message.
    let o = core.replay_step(&mut run);
    assert_eq!(o.wait_ms, 50);

    // The self message waits its typing delay without any indicator.
    let o = core.replay_step(&mut run);
    assert_eq!(o.wait_ms, 100);
    assert_eq!(core.current_pending_typing(), None);
    assert_eq!(core.current_replay_messages().len(), 1);

    // "yo" appears with the sent sound.
    let o = core.replay_step(&mut run);
    assert_eq!(o.sound, Some(SoundCue::SelfSender));
    assert_eq!(o.animate_off, Some(id1));
    assert_eq!(core.current_replay_messages().len(), 2);
    assert_eq!(core.current_replay_messages()[1].content, "yo");

    // End of the snapshot.
    let o = core.replay_step(&mut run);
    assert!(o.finished);
    assert_eq!(core.current_pending_typing(), None);
    // Completion does not clear the context: the view stays shown.
    assert!(core.is_replay_active_for(other));
    assert_eq!(core.visible_messages().len(), 2);
}

#[test]
fn status_consumes_only_the_gap() {
    let mut st = AppState::default();
    let other = 1000;
    st.contacts.push(contact(other));
    let id0 = st.messages.append_message(other, other, "joined".to_string(), MessageKind::Status);
    let _id1 = st.messages.append_message(other, other, "hi".to_string(), MessageKind::Normal);
    let mut core = ChatCore::from_state(st).unwrap();
    core.select_contact(Some(other));

    let mut run = core.start_replay(id0, fixed_settings(100, 50)).unwrap();
    let o = core.replay_step(&mut run);
    assert_eq!(o.wait_ms, 50);
    // The status line lands immediately: no typing delay, no indicator.
    let o = core.replay_step(&mut run);
    assert_eq!(o.wait_ms, 0);
    assert_eq!(o.sound, Some(SoundCue::OtherSender));
    assert_eq!(o.animate_off, Some(id0));
    assert_eq!(core.current_pending_typing(), None);
    assert_eq!(core.current_replay_messages().len(), 1);
    assert_eq!(core.current_replay_messages()[0].content, "joined");
    // The next message starts with its own gap; still no indicator from
    // the status line.
    let o = core.replay_step(&mut run);
    assert_eq!(o.wait_ms, 50);
    assert_eq!(core.current_pending_typing(), None);
}

#[test]
fn reactions_are_patched_after_the_reveal() {
    let mut st = AppState::default();
    let other = 1000;
    st.contacts.push(contact(other));
    let id0 = st.messages.append_message(other, other, "hi".to_string(), MessageKind::Normal);
    st.messages.add_reaction(other, id0, "<3", 7);
    let mut core = ChatCore::from_state(st).unwrap();
    core.select_contact(Some(other));

    let mut run = core.start_replay(id0, fixed_settings(100, 50)).unwrap();
    core.replay_step(&mut run); // gap
    core.replay_step(&mut run); // append in typing state
    // The copy appears without its reactions first.
    assert!(core.current_replay_messages()[0].reactions.is_empty());
    core.replay_step(&mut run); // reveal
    let o = core.replay_step(&mut run); // settle; reactions pending
    assert_eq!(o.wait_ms, 50);
    assert!(core.current_replay_messages()[0].reactions.is_empty());
    let o = core.replay_step(&mut run); // patch
    assert_eq!(o.wait_ms, 0);
    let view = core.current_replay_messages();
    assert_eq!(view[0].reactions.len(), 1);
    assert_eq!(view[0].reactions[0].content, "<3");
    let o = core.replay_step(&mut run);
    assert!(o.finished);
}

#[test]
fn cancelled_run_appends_nothing_more() {
    let mut st = AppState::default();
    let other = 1000;
    st.contacts.push(contact(other));
    let id0 = st.messages.append_message(other, other, "a".to_string(), MessageKind::Normal);
    st.messages.append_message(other, other, "b".to_string(), MessageKind::Normal);
    let mut core = ChatCore::from_state(st).unwrap();
    core.select_contact(Some(other));

    let mut run = core.start_replay(id0, fixed_settings(100, 0)).unwrap();
    core.replay_step(&mut run); // gap step of "a"
    core.replay_step(&mut run); // "a" appended
    assert_eq!(core.current_replay_messages().len(), 1);

    core.cancel_replay();
    assert!(core.current_replay_messages().is_empty());
    assert!(!core.is_replay_active_for(other));

    // The superseded run later resumes; every further step is inert.
    for _ in 0..6 {
        let o = core.replay_step(&mut run);
        assert!(o.finished);
        assert_eq!(o.sound, None);
        assert_eq!(o.animate_off, None);
        assert!(core.current_replay_messages().is_empty());
        assert_eq!(core.current_pending_typing(), None);
    }
}

#[test]
fn starting_a_new_replay_supersedes_the_old_run() {
    let mut st = AppState::default();
    let other = 1000;
    st.contacts.push(contact(other));
    let id0 = st.messages.append_message(other, other, "a".to_string(), MessageKind::Normal);
    let mut core = ChatCore::from_state(st).unwrap();
    core.select_contact(Some(other));

    let mut old_run = core.start_replay(id0, fixed_settings(100, 0)).unwrap();
    core.replay_step(&mut old_run);
    core.replay_step(&mut old_run);
    assert_eq!(core.current_replay_messages().len(), 1);

    // The new run resets the view synchronously, before any of its own
    // steps; the old run is stale from here on.
    let mut new_run = core.start_replay(id0, fixed_settings(100, 0)).unwrap();
    assert!(core.current_replay_messages().is_empty());
    let o = core.replay_step(&mut old_run);
    assert!(o.finished);
    assert!(core.current_replay_messages().is_empty());

    core.replay_step(&mut new_run);
    core.replay_step(&mut new_run);
    assert_eq!(core.current_replay_messages().len(), 1);
}

#[test]
fn switching_away_and_back_does_not_resume() {
    let mut st = AppState::default();
    let here = 1000;
    let elsewhere = 2000;
    st.contacts.push(contact(here));
    st.contacts.push(contact(elsewhere));
    let id0 = st.messages.append_message(here, here, "a".to_string(), MessageKind::Normal);
    st.messages.append_message(here, here, "b".to_string(), MessageKind::Normal);
    let mut core = ChatCore::from_state(st).unwrap();
    core.select_contact(Some(here));

    let mut run = core.start_replay(id0, fixed_settings(100, 0)).unwrap();
    core.replay_step(&mut run);
    core.replay_step(&mut run);
    assert_eq!(core.visible_messages().len(), 1);

    core.select_contact(Some(elsewhere));
    assert!(!core.is_replay_active_for(here));
    core.select_contact(Some(here));
    assert!(!core.is_replay_active_for(here));
    // The projector falls back to the store's list for the contact.
    let visible = core.visible_messages();
    assert_eq!(visible.len(), 2);
    assert_eq!(visible[0].content, "a");
    assert_eq!(core.visible_pending(), None);
    // The old run cannot mutate anything any more.
    let o = core.replay_step(&mut run);
    assert!(o.finished);
    assert_eq!(core.visible_messages().len(), 2);
}

#[test]
fn cancel_without_active_replay_changes_nothing_observable() {
    let mut st = AppState::default();
    let other = 1000;
    st.contacts.push(contact(other));
    st.messages.append_message(other, other, "a".to_string(), MessageKind::Normal);
    let mut core = ChatCore::from_state(st).unwrap();
    core.select_contact(Some(other));

    let before_msgs: Vec<String> =
        core.visible_messages().iter().map(|m| m.content.clone()).collect();
    let before_pending = core.visible_pending();
    core.cancel_replay();
    let after_msgs: Vec<String> =
        core.visible_messages().iter().map(|m| m.content.clone()).collect();
    assert_eq!(before_msgs, after_msgs);
    assert_eq!(before_pending, core.visible_pending());
    assert!(!core.is_replay_active_for(other));
}

#[test]
fn replay_from_the_middle_records_the_prior_sender() {
    let mut st = AppState::default();
    let other = 1000;
    st.contacts.push(contact(other));
    st.messages.append_message(other, other, "a".to_string(), MessageKind::Normal);
    let id1 = st.messages.append_message(other, other, "b".to_string(), MessageKind::Normal);
    let mut core = ChatCore::from_state(st).unwrap();
    core.select_contact(Some(other));

    let mut run = core.start_replay(id1, fixed_settings(10, 0)).unwrap();
    assert_eq!(core.replay_prior_sender(), Some(other));
    // Only the second message is replayed.
    core.replay_step(&mut run);
    core.replay_step(&mut run);
    assert_eq!(core.current_replay_messages().len(), 1);
    assert_eq!(core.current_replay_messages()[0].content, "b");
    // An unknown starting identifier degrades to the head of the list.
    let mut run = core.start_replay(987_654, fixed_settings(10, 0)).unwrap();
    assert_eq!(core.replay_prior_sender(), None);
    core.replay_step(&mut run);
    core.replay_step(&mut run);
    assert_eq!(core.current_replay_messages()[0].content, "a");
}

#[test]
fn deferred_animate_off_applies_to_the_replay_view() {
    let mut st = AppState::default();
    let other = 1000;
    st.contacts.push(contact(other));
    let id0 = st.messages.append_message(other, other, "a".to_string(), MessageKind::Normal);
    let mut core = ChatCore::from_state(st).unwrap();
    core.select_contact(Some(other));

    let mut run = core.start_replay(id0, fixed_settings(10, 0)).unwrap();
    core.replay_step(&mut run);
    let o = core.replay_step(&mut run);
    assert_eq!(o.animate_off, Some(id0));
    assert!(core.current_replay_messages()[0].animate);
    core.animate_off_in_replay(id0);
    assert!(!core.current_replay_messages()[0].animate);
    // A stale timer firing again, or after cancellation, is a no-op.
    core.animate_off_in_replay(id0);
    core.cancel_replay();
    core.animate_off_in_replay(id0);
    assert!(core.current_replay_messages().is_empty());
}

#[test]
fn clearing_messages_cancels_the_replay() {
    let mut st = AppState::default();
    let other = 1000;
    st.contacts.push(contact(other));
    let id0 = st.messages.append_message(other, other, "a".to_string(), MessageKind::Normal);
    let mut core = ChatCore::from_state(st).unwrap();
    core.select_contact(Some(other));
    let mut run = core.start_replay(id0, fixed_settings(10, 0)).unwrap();
    core.replay_step(&mut run);
    core.replay_step(&mut run);
    core.clear_messages();
    assert!(!core.is_replay_active_for(other));
    assert!(core.visible_messages().is_empty());
    let o = core.replay_step(&mut run);
    assert!(o.finished);
}

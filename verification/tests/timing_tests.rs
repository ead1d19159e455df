//! Timing policy: the per-message typing delay.

use baker::models::{Message, MessageKind};
use baker::timing::{delay_for, settings_from_fields, ReplayIntervalMode, ReplaySettings};

fn msg(kind: MessageKind, content: &str) -> Message {
    Message {
        id: 1,
        sender_id: 2,
        content: content.to_string(),
        kind,
        animate: false,
        reactions: Vec::new(),
    }
}

fn settings(mode: ReplayIntervalMode, fixed_ms: u64, per_char_ms: u64) -> ReplaySettings {
    ReplaySettings { mode, fixed_ms, per_char_ms, gap_ms: 0 }
}

#[test]
fn per_char_delay_is_monotonic_in_length() {
    let s = settings(ReplayIntervalMode::PerChar, 100, 40);
    let short = delay_for(&msg(MessageKind::Normal, "hi"), &s);
    let long = delay_for(&msg(MessageKind::Normal, "hello there"), &s);
    assert_eq!(short, 80);
    assert_eq!(long, 440);
    assert!(short <= long);
}

#[test]
fn fixed_delay_ignores_length() {
    let s = settings(ReplayIntervalMode::Fixed, 123, 40);
    assert_eq!(delay_for(&msg(MessageKind::Normal, ""), &s), 123);
    assert_eq!(delay_for(&msg(MessageKind::Normal, "a very long message body"), &s), 123);
}

#[test]
fn image_always_uses_fixed_delay() {
    let huge_data_url = "data:image/png;base64,".repeat(50);
    let s_per_char = settings(ReplayIntervalMode::PerChar, 77, 40);
    let s_fixed = settings(ReplayIntervalMode::Fixed, 77, 40);
    assert_eq!(delay_for(&msg(MessageKind::Image, &huge_data_url), &s_per_char), 77);
    assert_eq!(delay_for(&msg(MessageKind::Image, &huge_data_url), &s_fixed), 77);
}

#[test]
fn status_has_no_typing_delay() {
    let s = settings(ReplayIntervalMode::PerChar, 100, 40);
    assert_eq!(delay_for(&msg(MessageKind::Status, "someone joined"), &s), 0);
}

#[test]
fn per_char_delay_saturates() {
    let s = settings(ReplayIntervalMode::PerChar, 100, u64::MAX);
    assert_eq!(delay_for(&msg(MessageKind::Normal, "ab"), &s), u64::MAX);
}

#[test]
fn settings_fields_degrade_to_defaults() {
    let s = settings_from_fields(ReplayIntervalMode::Fixed, "100", "0", "50");
    assert_eq!((s.fixed_ms, s.per_char_ms, s.gap_ms), (100, 0, 50));
    let s = settings_from_fields(ReplayIntervalMode::PerChar, "", "oops", "1e3");
    assert_eq!((s.fixed_ms, s.per_char_ms, s.gap_ms), (800, 40, 200));
}

#[test]
fn per_char_counts_characters_not_bytes() {
    let s = settings(ReplayIntervalMode::PerChar, 100, 10);
    // Three characters, far more than three bytes.
    assert_eq!(delay_for(&msg(MessageKind::Normal, "\u{4f60}\u{597d}\u{5417}"), &s), 30);
}

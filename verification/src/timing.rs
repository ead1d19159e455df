//! Timing policy of the replay engine: how long the simulated "typing"
//! of one message takes, as a function of the replay settings and the
//! message's shape.

use vstd::prelude::*;

use crate::models::{Message, MessageKind};
use vstd::string::StrSliceExecFns;

verus! {

/// How the typing delay of a message is computed.
#[derive(Clone, Copy, Debug, PartialEq, Eq, Structural)]
pub enum ReplayIntervalMode {
    Fixed,
    PerChar,
}

/// Settings of one replay run, immutable while the run lasts.
#[derive(Clone, Copy, Debug, PartialEq, Eq, Structural)]
pub struct ReplaySettings {
    pub mode: ReplayIntervalMode,
    pub fixed_ms: u64,
    pub per_char_ms: u64,
    pub gap_ms: u64,
}

/// The typing delay of a message, in milliseconds.
///
/// Status lines are not "typed" and get no typing delay. Image payloads
/// are data URIs with huge character counts, so they always use the
/// fixed delay, whatever the interval mode says. Otherwise fixed mode
/// uses the fixed delay and per-character mode multiplies the character
/// count by the per-character delay, saturating at the numeric maximum.
pub open spec fn spec_delay_for(kind: MessageKind, content: Seq<char>, s: ReplaySettings) -> u64 {
    if kind == MessageKind::Status {
        0
    } else if kind == MessageKind::Image {
        s.fixed_ms
    } else if s.mode == ReplayIntervalMode::Fixed {
        s.fixed_ms
    } else if content.len() * s.per_char_ms > u64::MAX {
        u64::MAX
    } else {
        (content.len() * s.per_char_ms) as u64
    }
}

/// Computes the typing delay of `msg` under `settings`.
pub fn delay_for(msg: &Message, settings: &ReplaySettings) -> (d: u64)
    ensures
        d == spec_delay_for(msg@.kind, msg@.content, *settings),
{
    match msg.kind {
        MessageKind::Status => 0,
        MessageKind::Image => settings.fixed_ms,
        _ => {
            match settings.mode {
                ReplayIntervalMode::Fixed => settings.fixed_ms,
                ReplayIntervalMode::PerChar => {
                    let len = msg.content.as_str().unicode_len() as u64;
                    match len.checked_mul(settings.per_char_ms) {
                        Some(v) => v,
                        None => u64::MAX,
                    }
                },
            }
        },
    }
}

/// Builds replay settings from the text fields of the settings form.
/// A field that does not hold a number, an empty one included,
/// degrades to its default: 800 ms fixed delay, 40 ms per character,
/// 200 ms gap.
pub fn settings_from_fields(
    mode: ReplayIntervalMode,
    fixed: &str,
    per_char: &str,
    gap: &str,
) -> (r: ReplaySettings)
    ensures
        r.mode == mode,
        r.fixed_ms == match crate::version::spec_parse_u64(fixed@) {
            Some(v) => v,
            None => 800u64,
        },
        r.per_char_ms == match crate::version::spec_parse_u64(per_char@) {
            Some(v) => v,
            None => 40u64,
        },
        r.gap_ms == match crate::version::spec_parse_u64(gap@) {
            Some(v) => v,
            None => 200u64,
        },
{
    ReplaySettings {
        mode,
        fixed_ms: crate::version::parse_ms_or(fixed, 800),
        per_char_ms: crate::version::parse_ms_or(per_char, 40),
        gap_ms: crate::version::parse_ms_or(gap, 200),
    }
}

/// Under per-character mode the typing delay of a non-status, non-image
/// message is monotonically non-decreasing in the content length.
pub proof fn lemma_delay_monotonic_in_length(
    kind: MessageKind,
    c1: Seq<char>,
    c2: Seq<char>,
    s: ReplaySettings,
)
    requires
        kind != MessageKind::Status,
        kind != MessageKind::Image,
        s.mode == ReplayIntervalMode::PerChar,
        c1.len() <= c2.len(),
    ensures
        spec_delay_for(kind, c1, s) <= spec_delay_for(kind, c2, s),
{
    assert(c1.len() * s.per_char_ms <= c2.len() * s.per_char_ms) by (nonlinear_arith)
        requires
            c1.len() <= c2.len(),
    ;
}

/// Under fixed mode the typing delay of a non-status message equals the
/// fixed delay, regardless of the content length.
pub proof fn lemma_delay_fixed_mode(kind: MessageKind, content: Seq<char>, s: ReplaySettings)
    requires
        kind != MessageKind::Status,
        s.mode == ReplayIntervalMode::Fixed,
    ensures
        spec_delay_for(kind, content, s) == s.fixed_ms,
{
}

/// An image message always gets the fixed delay, whatever the interval
/// mode and the content are.
pub proof fn lemma_image_delay(content: Seq<char>, s: ReplaySettings)
    ensures
        spec_delay_for(MessageKind::Image, content, s) == s.fixed_ms,
{
}

} // verus!

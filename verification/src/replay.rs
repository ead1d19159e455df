//! Data carried by one replay run: the typing indicator, the replay
//! context, the run descriptor the scheduler walks, and the outcome of
//! one scheduler step.

use vstd::prelude::*;

use crate::models::{Message, MessageView};
use crate::timing::ReplaySettings;

verus! {

/// The two phases of the typing indicator shown for a message of a
/// non-self sender during replay: first a typing placeholder, then the
/// revealed content.
#[derive(Clone, Copy, Debug, PartialEq, Eq, Structural)]
pub enum ReplayTypingPhase {
    Typing,
    Reveal,
}

/// The in-progress message during replay; absent when no message is
/// mid-reveal.
#[derive(Clone, Copy, Debug, PartialEq, Eq, Structural)]
pub struct PendingTyping {
    pub id: u64,
    pub phase: ReplayTypingPhase,
}

/// Which contact a replay run belongs to and which sender preceded the
/// run's first message (affects avatar grouping); exists only while a
/// replay is active.
#[derive(Clone, Copy, Debug, PartialEq, Eq, Structural)]
pub struct ReplayContext {
    pub contact_id: u64,
    pub prev_sender_id: Option<u64>,
}

/// Where inside the handling of the current message a run stands.
#[derive(Clone, Copy, Debug, PartialEq, Eq, Structural)]
pub enum RunStage {
    /// About to check the token and wait the inter-message gap.
    MsgStart,
    /// About to dispatch on the current message's kind and sender.
    Dispatch,
    /// A non-self message was appended; about to switch the indicator
    /// to the reveal phase.
    OtherReveal,
    /// The reveal-settle wait has elapsed; about to clear the
    /// indicator.
    OtherSettle,
    /// A self message's typing wait has elapsed; about to append it.
    SelfAppend,
    /// About to patch the original reactions into the replay view.
    PatchReactions,
}

/// Which send sound a step asks the surroundings to fire.
#[derive(Clone, Copy, Debug, PartialEq, Eq, Structural)]
pub enum SoundCue {
    /// The message belongs to the user.
    SelfSender,
    /// The message belongs to another participant.
    OtherSender,
}

/// What one scheduler step asks the surroundings to do: wait some
/// milliseconds before the next step (zero: continue at once), fire a
/// send sound, schedule the deferred animate-off for a message of the
/// replay view, and whether the run is over.
#[derive(Clone, Copy, Debug, PartialEq, Eq, Structural)]
pub struct StepOutcome {
    pub wait_ms: u64,
    pub sound: Option<SoundCue>,
    pub animate_off: Option<u64>,
    pub finished: bool,
}

/// A step that does nothing and ends the run.
pub open spec fn finished_outcome() -> StepOutcome {
    StepOutcome { wait_ms: 0, sound: None, animate_off: None, finished: true }
}

/// One replay run: the token captured at start, the identity of the
/// user, the settings, an immutable snapshot of the contact's message
/// list, and the position the run stands at.
pub struct ReplayRun {
    pub token: u64,
    pub user_id: u64,
    pub settings: ReplaySettings,
    pub snapshot: Vec<Message>,
    pub start: usize,
    pub pos: usize,
    pub stage: RunStage,
}

/// Mathematical view of a replay run.
#[verifier::ext_equal]
pub ghost struct RunView {
    pub token: u64,
    pub user_id: u64,
    pub settings: ReplaySettings,
    pub snapshot: Seq<MessageView>,
    pub start: int,
    pub pos: int,
    pub stage: RunStage,
}

impl View for ReplayRun {
    type V = RunView;

    open spec fn view(&self) -> RunView {
        RunView {
            token: self.token,
            user_id: self.user_id,
            settings: self.settings,
            snapshot: self.snapshot.deep_view(),
            start: self.start as int,
            pos: self.pos as int,
            stage: self.stage,
        }
    }
}

} // verus!

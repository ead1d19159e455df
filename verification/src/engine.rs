//! The application core: the selected contact, the token-versioned
//! replay engine and the projection that decides what the UI shows.
//!
//! All mutation of shared state goes through one `ChatCore` value, so
//! the single-writer assumption of the store holds structurally. The
//! replay scheduler is a state machine: `start_replay` captures a
//! snapshot and a token, and `replay_step` performs one transition and
//! tells the surroundings how long to wait before the next one. Every
//! step first compares the run's captured token with the current one
//! and mutates nothing when they differ, so a superseded run is inert.

use vstd::prelude::*;

use crate::models::{clone_messages, clone_reactions, Message, MessageKind, MessageView};
use crate::store::{new_msg_view, spec_has_contact, spec_insert_pos};
use crate::replay::{
    finished_outcome, PendingTyping, ReplayContext, ReplayRun, ReplayTypingPhase, RunStage,
    RunView, SoundCue, StepOutcome,
};
use crate::state::{AppState, StateView};
use crate::store::{
    find_msg_in, msg_ids_unique, spec_has_msg, spec_msg_index, spec_msgs_of,
    spec_store_clear_animate, store_wf,
};
use crate::timing::ReplaySettings;

verus! {

/// How long the reveal of a non-self message settles before the typing
/// indicator is cleared, in milliseconds.
pub const REVEAL_SETTLE_MS: u64 = 200;

/// How long after a message becomes visible its entrance animation is
/// switched off, in milliseconds. The core only records the flag; the
/// surroundings wait this long and then call the animate-off
/// operation.
pub const ANIMATE_OFF_MS: u64 = 220;

/// The application core.
pub struct ChatCore {
    state: AppState,
    selected: Option<u64>,
    replay_token: u64,
    replay_active: Option<ReplayContext>,
    replay_view: Vec<Message>,
    replay_pending: Option<PendingTyping>,
}

/// Mathematical view of the application core.
#[verifier::ext_equal]
pub ghost struct CoreView {
    pub state: StateView,
    pub selected: Option<u64>,
    pub token: u64,
    pub active: Option<ReplayContext>,
    pub replay_view: Seq<MessageView>,
    pub pending: Option<PendingTyping>,
}

impl View for ChatCore {
    type V = CoreView;

    closed spec fn view(&self) -> CoreView {
        CoreView {
            state: self.state@,
            selected: self.selected,
            token: self.replay_token,
            active: self.replay_active,
            replay_view: self.replay_view.deep_view(),
            pending: self.replay_pending,
        }
    }
}

/// Whether the projector shows the replay view: a replay is active and
/// belongs to the selected contact.
pub open spec fn replay_shown(c: CoreView) -> bool {
    c.active matches Some(ctx) && c.selected matches Some(id) && ctx.contact_id == id
}

/// The messages the UI renders: the replay view while a replay for the
/// selected contact is active, the store's list for the selected
/// contact otherwise, and nothing when no contact is selected.
pub open spec fn spec_project_messages(c: CoreView) -> Seq<MessageView> {
    if replay_shown(c) {
        c.replay_view
    } else {
        match c.selected {
            Some(id) => spec_msgs_of(c.state.messages, id),
            None => Seq::empty(),
        }
    }
}

/// The typing indicator the UI renders: the pending indicator while a
/// replay for the selected contact is active, nothing otherwise.
pub open spec fn spec_project_pending(c: CoreView) -> Option<PendingTyping> {
    if replay_shown(c) {
        c.pending
    } else {
        None
    }
}

/// Cancelling a replay: the token moves up, so any in-flight run goes
/// stale; the context, the replay view and the indicator are cleared.
pub open spec fn spec_cancel(c: CoreView) -> CoreView {
    CoreView {
        token: (c.token + 1) as u64,
        active: None,
        replay_view: Seq::empty(),
        pending: None,
        ..c
    }
}

/// Selecting a contact: the selection moves; the newly selected
/// contact's stored messages lose their entrance-animation flags; and
/// a replay active for another contact is cancelled.
pub open spec fn spec_select(c: CoreView, sel: Option<u64>) -> CoreView {
    let st = match sel {
        Some(id) => spec_store_clear_animate(c.state.messages, id),
        None => c.state.messages,
    };
    let c1 = CoreView { selected: sel, state: StateView { messages: st, ..c.state }, ..c };
    if c.active matches Some(ctx) && Some(ctx.contact_id) != sel {
        spec_cancel(c1)
    } else {
        c1
    }
}

/// Where a replay starting from this message begins: the message's
/// position in the snapshot, or position 0 when it is not found.
pub open spec fn spec_start_index(msgs: Seq<MessageView>, id: u64) -> int {
    if spec_has_msg(msgs, id) {
        spec_msg_index(msgs, id)
    } else {
        0
    }
}

/// The sender immediately before the run's first message, or none when
/// the run starts at the head of the list.
pub open spec fn spec_prev_sender(msgs: Seq<MessageView>, start: int) -> Option<u64> {
    if start > 0 {
        Some(msgs[start - 1].sender_id)
    } else {
        None
    }
}

/// Starting a replay for the selected contact: the token moves up, the
/// replay view and the indicator are reset before any message is
/// appended, and the context records the contact and the prior sender.
pub open spec fn spec_start(c: CoreView, cid: u64, start_msg_id: u64) -> CoreView {
    let msgs = spec_msgs_of(c.state.messages, cid);
    let idx = spec_start_index(msgs, start_msg_id);
    CoreView {
        token: (c.token + 1) as u64,
        active: Some(
            ReplayContext { contact_id: cid, prev_sender_id: spec_prev_sender(msgs, idx) },
        ),
        replay_view: Seq::empty(),
        pending: None,
        ..c
    }
}

/// The run descriptor a fresh replay starts with.
pub open spec fn spec_run_of(c: CoreView, cid: u64, start_msg_id: u64, settings: ReplaySettings) -> RunView {
    let msgs = spec_msgs_of(c.state.messages, cid);
    let idx = spec_start_index(msgs, start_msg_id);
    RunView {
        token: (c.token + 1) as u64,
        user_id: c.state.user_profile.id,
        settings,
        snapshot: msgs,
        start: idx,
        pos: idx,
        stage: RunStage::MsgStart,
    }
}

/// How many messages of the snapshot a run in this position has
/// appended to the replay view.
pub open spec fn run_appended(r: RunView) -> int {
    r.pos - r.start + if r.stage == RunStage::OtherReveal || r.stage == RunStage::OtherSettle
        || r.stage == RunStage::PatchReactions {
        1int
    } else {
        0int
    }
}

/// What holds between the core and a run while the run is current: the
/// snapshot's identifiers are distinct, the position lies inside the
/// snapshot, and the replay view holds exactly the messages appended
/// so far, in snapshot order. A stale run promises nothing.
pub open spec fn run_inv(c: CoreView, r: RunView) -> bool {
    r.token == c.token ==> {
        &&& msg_ids_unique(r.snapshot)
        &&& 0 <= r.start
        &&& r.start <= r.pos
        &&& r.pos <= r.snapshot.len()
        &&& (r.stage != RunStage::MsgStart ==> r.pos < r.snapshot.len())
        &&& c.replay_view.len() == run_appended(r)
        &&& forall|k: int|
            0 <= k < c.replay_view.len() ==> c.replay_view[k].id == r.snapshot[r.start + k].id
    }
}

/// The prior sender shown at the head of the rendered list: the active
/// replay's recorded prior sender when the replay belongs to the
/// selected contact, nothing otherwise.
pub open spec fn spec_prior_for_display(c: CoreView) -> Option<u64> {
    match c.active {
        Some(ctx) => if c.selected == Some(ctx.contact_id) {
            ctx.prev_sender_id
        } else {
            None
        },
        None => None,
    }
}

/// What the surroundings do after a message was created by a send: the
/// send sound fires (self or other, per the sender), and the deferred
/// animate-off is scheduled against the store.
#[derive(Clone, Copy, Debug, PartialEq, Eq, Structural)]
pub struct SendReceipt {
    pub contact_id: u64,
    pub msg_id: u64,
    pub self_sender: bool,
}

/// What the surroundings do after a message was inserted: only the
/// deferred animate-off is scheduled (no sound).
#[derive(Clone, Copy, Debug, PartialEq, Eq, Structural)]
pub struct InsertReceipt {
    pub contact_id: u64,
    pub msg_id: u64,
}

/// The copy of a status message the scheduler appends: entrance
/// animation on, reactions kept.
pub open spec fn replay_copy_full(m: MessageView) -> MessageView {
    MessageView { animate: true, ..m }
}

/// The copy of a normal message the scheduler appends: entrance
/// animation on, reactions cleared (they are patched in later).
pub open spec fn replay_copy_clean(m: MessageView) -> MessageView {
    MessageView { animate: true, reactions: Seq::empty(), ..m }
}

/// What one scheduler step yields: the core afterwards, the run
/// afterwards, and what the surroundings are asked to do.
#[verifier::ext_equal]
pub ghost struct StepRes {
    pub core: CoreView,
    pub run: RunView,
    pub out: StepOutcome,
}

/// The step taken at the top of a message: past the end of the
/// snapshot the run clears the indicator and finishes; otherwise it
/// proceeds to dispatch after the inter-message gap.
pub open spec fn spec_step_msg_start(c: CoreView, r: RunView) -> StepRes {
    if r.pos >= r.snapshot.len() {
        StepRes { core: CoreView { pending: None, ..c }, run: r, out: finished_outcome() }
    } else {
        StepRes {
            core: c,
            run: RunView { stage: RunStage::Dispatch, ..r },
            out: StepOutcome {
                wait_ms: r.settings.gap_ms,
                sound: None,
                animate_off: None,
                finished: false,
            },
        }
    }
}

/// The dispatch step. A status line is appended as it is (no typing
/// phase) and the run moves on. A non-self message is appended at once
/// in its typing-wait shape, the indicator enters the typing phase,
/// and the run waits the typing delay. A self message only clears the
/// indicator and waits the typing delay; it is appended afterwards.
pub open spec fn spec_step_dispatch(c: CoreView, r: RunView) -> StepRes {
    let m = r.snapshot[r.pos];
    if m.kind == crate::models::MessageKind::Status {
        StepRes {
            core: CoreView { replay_view: c.replay_view.push(replay_copy_full(m)), ..c },
            run: RunView { pos: r.pos + 1, stage: RunStage::MsgStart, ..r },
            out: StepOutcome {
                wait_ms: 0,
                sound: Some(
                    if m.sender_id == r.user_id {
                        SoundCue::SelfSender
                    } else {
                        SoundCue::OtherSender
                    },
                ),
                animate_off: Some(m.id),
                finished: false,
            },
        }
    } else if m.sender_id != r.user_id {
        StepRes {
            core: CoreView {
                replay_view: c.replay_view.push(replay_copy_clean(m)),
                pending: Some(PendingTyping { id: m.id, phase: ReplayTypingPhase::Typing }),
                ..c
            },
            run: RunView { stage: RunStage::OtherReveal, ..r },
            out: StepOutcome {
                wait_ms: crate::timing::spec_delay_for(m.kind, m.content, r.settings),
                sound: None,
                animate_off: Some(m.id),
                finished: false,
            },
        }
    } else {
        StepRes {
            core: CoreView { pending: None, ..c },
            run: RunView { stage: RunStage::SelfAppend, ..r },
            out: StepOutcome {
                wait_ms: crate::timing::spec_delay_for(m.kind, m.content, r.settings),
                sound: None,
                animate_off: None,
                finished: false,
            },
        }
    }
}

/// The reveal step of a non-self message: the indicator switches to
/// the reveal phase, the received sound fires, and the run waits the
/// reveal-settle delay.
pub open spec fn spec_step_other_reveal(c: CoreView, r: RunView) -> StepRes {
    let m = r.snapshot[r.pos];
    StepRes {
        core: CoreView {
            pending: Some(PendingTyping { id: m.id, phase: ReplayTypingPhase::Reveal }),
            ..c
        },
        run: RunView { stage: RunStage::OtherSettle, ..r },
        out: StepOutcome {
            wait_ms: REVEAL_SETTLE_MS,
            sound: Some(SoundCue::OtherSender),
            animate_off: None,
            finished: false,
        },
    }
}

/// The settle step of a non-self message: the indicator clears; when
/// the original message carried reactions the run waits the gap once
/// more and patches them in, otherwise it moves to the next message.
pub open spec fn spec_step_other_settle(c: CoreView, r: RunView) -> StepRes {
    let m = r.snapshot[r.pos];
    let c1 = CoreView { pending: None, ..c };
    if m.reactions.len() > 0 {
        StepRes {
            core: c1,
            run: RunView { stage: RunStage::PatchReactions, ..r },
            out: StepOutcome {
                wait_ms: r.settings.gap_ms,
                sound: None,
                animate_off: None,
                finished: false,
            },
        }
    } else {
        StepRes {
            core: c1,
            run: RunView { pos: r.pos + 1, stage: RunStage::MsgStart, ..r },
            out: StepOutcome { wait_ms: 0, sound: None, animate_off: None, finished: false },
        }
    }
}

/// The append step of a self message, after its typing wait: the copy
/// is appended, the sent sound fires, and reactions are patched in
/// afterwards when the original carried any.
pub open spec fn spec_step_self_append(c: CoreView, r: RunView) -> StepRes {
    let m = r.snapshot[r.pos];
    let c1 = CoreView { replay_view: c.replay_view.push(replay_copy_clean(m)), ..c };
    let out_base = StepOutcome {
        wait_ms: 0,
        sound: Some(SoundCue::SelfSender),
        animate_off: Some(m.id),
        finished: false,
    };
    if m.reactions.len() > 0 {
        StepRes {
            core: c1,
            run: RunView { stage: RunStage::PatchReactions, ..r },
            out: StepOutcome { wait_ms: r.settings.gap_ms, ..out_base },
        }
    } else {
        StepRes {
            core: c1,
            run: RunView { pos: r.pos + 1, stage: RunStage::MsgStart, ..r },
            out: out_base,
        }
    }
}

/// The reaction-patch step: the replay-view entry with the original
/// message's identifier takes over the original reactions, and the run
/// moves to the next message.
pub open spec fn spec_step_patch(c: CoreView, r: RunView) -> StepRes {
    let m = r.snapshot[r.pos];
    let view = if spec_has_msg(c.replay_view, m.id) {
        c.replay_view.update(
            spec_msg_index(c.replay_view, m.id),
            MessageView {
                reactions: m.reactions,
                ..c.replay_view[spec_msg_index(c.replay_view, m.id)]
            },
        )
    } else {
        c.replay_view
    };
    StepRes {
        core: CoreView { replay_view: view, ..c },
        run: RunView { pos: r.pos + 1, stage: RunStage::MsgStart, ..r },
        out: StepOutcome { wait_ms: 0, sound: None, animate_off: None, finished: false },
    }
}

/// One step of the scheduler: a stale run (captured token different
/// from the current one) does nothing and finishes; a current run
/// takes the step its stage calls for.
pub open spec fn spec_step(c: CoreView, r: RunView) -> StepRes {
    if r.token != c.token {
        StepRes { core: c, run: r, out: finished_outcome() }
    } else {
        match r.stage {
            RunStage::MsgStart => spec_step_msg_start(c, r),
            RunStage::Dispatch => spec_step_dispatch(c, r),
            RunStage::OtherReveal => spec_step_other_reveal(c, r),
            RunStage::OtherSettle => spec_step_other_settle(c, r),
            RunStage::SelfAppend => spec_step_self_append(c, r),
            RunStage::PatchReactions => spec_step_patch(c, r),
        }
    }
}

/// The copies a completed run leaves behind: each snapshot message
/// with its entrance animation on and, after patching, its original
/// reactions.
pub open spec fn replay_copies(msgs: Seq<MessageView>) -> Seq<MessageView> {
    Seq::new(msgs.len(), |i: int| replay_copy_full(msgs[i]))
}

/// How far within one message's handling a stage stands; steps walk
/// the ranks downwards before moving to the next message.
pub open spec fn stage_rank(s: RunStage) -> int {
    match s {
        RunStage::MsgStart => 5,
        RunStage::Dispatch => 4,
        RunStage::OtherReveal => 3,
        RunStage::OtherSettle => 2,
        RunStage::SelfAppend => 2,
        RunStage::PatchReactions => 1,
    }
}

/// A bound on the steps a run still takes; every step of a current
/// run strictly decreases it.
pub open spec fn run_measure(r: RunView) -> int {
    6 * (r.snapshot.len() - r.pos) + stage_rank(r.stage)
}

/// The exact shape of a current run's replay view: the fully patched
/// copies of the snapshot messages handled so far and, in the stages
/// between a non-self append and its reaction patch, the current
/// message's reaction-free copy at the tail.
pub open spec fn run_progress(c: CoreView, r: RunView) -> bool {
    &&& msg_ids_unique(r.snapshot)
    &&& 0 <= r.start
    &&& r.start <= r.pos
    &&& r.pos <= r.snapshot.len()
    &&& (r.stage != RunStage::MsgStart ==> r.pos < r.snapshot.len())
    &&& if r.stage == RunStage::OtherReveal || r.stage == RunStage::OtherSettle || r.stage
        == RunStage::PatchReactions {
        c.replay_view == replay_copies(r.snapshot.subrange(r.start, r.pos)).push(
            replay_copy_clean(r.snapshot[r.pos]),
        )
    } else {
        c.replay_view == replay_copies(r.snapshot.subrange(r.start, r.pos))
    }
}

/// Stepping the run: the current copy of a handled suffix, plus the
/// remaining steps, stays exactly on course.
pub proof fn lemma_step_preserves_progress(c: CoreView, r: RunView)
    requires
        r.token == c.token,
        run_progress(c, r),
        !spec_step(c, r).out.finished,
    ensures
        spec_step(c, r).run.token == spec_step(c, r).core.token,
        spec_step(c, r).run.snapshot == r.snapshot,
        spec_step(c, r).run.start == r.start,
        run_progress(spec_step(c, r).core, spec_step(c, r).run),
        run_measure(spec_step(c, r).run) < run_measure(r),
        spec_step(c, r).core == (CoreView {
            replay_view: spec_step(c, r).core.replay_view,
            pending: spec_step(c, r).core.pending,
            ..c
        }),
{
    let s = spec_step(c, r);
    let p = r.pos;
    let snap = r.snapshot;
    match r.stage {
        RunStage::MsgStart => {
        },
        RunStage::Dispatch => {
            let m = snap[p];
            if m.kind == crate::models::MessageKind::Status {
                assert(s.core.replay_view =~= replay_copies(snap.subrange(r.start, p + 1)))
                    by {
                    assert(replay_copy_full(m).reactions == m.reactions);
                }
            } else if m.sender_id != r.user_id {
                assert(run_progress(s.core, s.run));
            } else {
                assert(run_progress(s.core, s.run));
            }
        },
        RunStage::OtherReveal => {
        },
        RunStage::OtherSettle => {
            let m = snap[p];
            if m.reactions.len() > 0 {
            } else {
                assert(m.reactions =~= Seq::<crate::models::ReactionView>::empty());
                assert(replay_copy_clean(m) =~= replay_copy_full(m));
                assert(s.core.replay_view =~= replay_copies(snap.subrange(r.start, p + 1)));
            }
        },
        RunStage::SelfAppend => {
            let m = snap[p];
            if m.reactions.len() > 0 {
            } else {
                assert(m.reactions =~= Seq::<crate::models::ReactionView>::empty());
                assert(replay_copy_clean(m) =~= replay_copy_full(m));
                assert(s.core.replay_view =~= replay_copies(snap.subrange(r.start, p + 1)));
            }
        },
        RunStage::PatchReactions => {
            let m = snap[p];
            let view = c.replay_view;
            let n = view.len() as int;
            assert(view[n - 1] == replay_copy_clean(m));
            assert(spec_has_msg(view, m.id));
            let idx = spec_msg_index(view, m.id);
            assert(0 <= idx < n && view[idx].id == m.id);
            if idx < n - 1 {
                assert(view[idx] == replay_copies(snap.subrange(r.start, p))[idx]);
                assert(view[idx].id == snap[r.start + idx].id);
                assert(snap[r.start + idx].id != snap[p].id);
                assert(false);
            }
            assert(idx == n - 1);
            assert((MessageView { reactions: m.reactions, ..view[idx] }) =~= replay_copy_full(
                m,
            ));
            assert(s.core.replay_view =~= replay_copies(snap.subrange(r.start, p + 1)));
        },
    }
}

/// The core after at most `fuel` further steps of the run; a run that
/// finishes earlier stays finished.
pub open spec fn run_steps(c: CoreView, r: RunView, fuel: nat) -> CoreView
    decreases fuel,
{
    if fuel == 0 {
        c
    } else {
        let s = spec_step(c, r);
        if s.out.finished {
            s.core
        } else {
            run_steps(s.core, s.run, (fuel - 1) as nat)
        }
    }
}

/// A run that is never superseded terminates, with the replay view
/// holding exactly the animated, fully patched copies of the snapshot
/// from the start position to its end, the indicator cleared, and
/// nothing else of the core touched. A fresh run satisfies
/// `run_progress` by `lemma_fresh_run_progress`, so this covers every
/// uninterrupted replay from start to finish.
pub proof fn lemma_uninterrupted_run_completes(c: CoreView, r: RunView, fuel: nat)
    requires
        r.token == c.token,
        run_progress(c, r),
        fuel > run_measure(r),
    ensures
        run_steps(c, r, fuel) == (CoreView {
            replay_view: replay_copies(r.snapshot.subrange(r.start, r.snapshot.len() as int)),
            pending: None,
            ..c
        }),
    decreases fuel,
{
    let s = spec_step(c, r);
    if s.out.finished {
        assert(r.stage == RunStage::MsgStart && r.pos >= r.snapshot.len());
        assert(r.pos == r.snapshot.len());
        assert(c.replay_view == replay_copies(r.snapshot.subrange(r.start, r.pos)));
        assert(run_steps(c, r, fuel) =~= (CoreView {
            replay_view: replay_copies(r.snapshot.subrange(r.start, r.snapshot.len() as int)),
            pending: None,
            ..c
        }));
    } else {
        lemma_step_preserves_progress(c, r);
        lemma_uninterrupted_run_completes(s.core, s.run, (fuel - 1) as nat);
        assert(run_steps(c, r, fuel) =~= (CoreView {
            replay_view: replay_copies(r.snapshot.subrange(r.start, r.snapshot.len() as int)),
            pending: None,
            ..c
        }));
    }
}

/// A freshly started run stands at the head of its course: the view
/// is empty and the whole snapshot suffix is still to come.
pub proof fn lemma_fresh_run_progress(c: CoreView, cid: u64, start_msg_id: u64, settings: ReplaySettings)
    requires
        store_wf(c.state.messages),
    ensures
        run_progress(spec_start(c, cid, start_msg_id), spec_run_of(c, cid, start_msg_id, settings)),
        spec_run_of(c, cid, start_msg_id, settings).token == spec_start(c, cid, start_msg_id).token,
{
    let msgs = spec_msgs_of(c.state.messages, cid);
    assert(msg_ids_unique(msgs)) by {
        let entries = c.state.messages.entries;
        if crate::store::spec_has_contact(entries, cid) {
            let i = crate::store::spec_entry_index(entries, cid);
            assert(msg_ids_unique(entries[i].messages));
        }
    }
    let idx = spec_start_index(msgs, start_msg_id);
    assert(0 <= idx <= msgs.len());
    assert(replay_copies(msgs.subrange(idx, idx)) =~= Seq::<MessageView>::empty());
}

/// A superseded run is inert: once the tokens differ, a step changes
/// neither the core nor the run, and reports the run as finished; in
/// particular no further message is ever appended to the replay view
/// by that run.
pub proof fn lemma_stale_step_is_inert(c: CoreView, r: RunView)
    requires
        r.token != c.token,
    ensures
        spec_step(c, r).core == c,
        spec_step(c, r).run == r,
        spec_step(c, r).out.finished,
{
}

/// Cancelling (or starting a new replay, or switching the contact)
/// moves the current token strictly above every token captured
/// earlier, so every earlier run is stale from then on.
pub proof fn lemma_token_move_supersedes(token_before: u64, run_token: u64)
    requires
        run_token <= token_before < u64::MAX,
    ensures
        run_token != (token_before + 1) as u64,
{
}

/// Switching the selected contact away from an active replay's contact
/// ends that replay, and selecting the contact again does not resume
/// it: the replay context is gone, so the projector shows the store's
/// list for the contact, with no typing indicator.
pub proof fn lemma_switch_away_and_back(c: CoreView, away: Option<u64>, back: u64)
    requires
        c.active matches Some(ctx) && ctx.contact_id == back,
        away != Some(back),
    ensures
        ({
            let c2 = spec_select(spec_select(c, away), Some(back));
            &&& c2.active is None
            &&& spec_project_messages(c2) == spec_msgs_of(c2.state.messages, back)
            &&& spec_project_pending(c2) is None
        }),
{
}

/// Cancelling with no active replay is observationally a no-op: the
/// projector shows the same messages and the same indicator before
/// and after; only the internal token moves up.
pub proof fn lemma_cancel_idle_is_silent(c: CoreView)
    requires
        c.active is None,
        c.replay_view == Seq::<MessageView>::empty(),
        c.pending is None,
    ensures
        spec_cancel(c) == (CoreView { token: (c.token + 1) as u64, ..c }),
        spec_project_messages(spec_cancel(c)) == spec_project_messages(c),
        spec_project_pending(spec_cancel(c)) == spec_project_pending(c),
{
    assert(spec_cancel(c) =~= (CoreView { token: (c.token + 1) as u64, ..c }));
}

/// A list whose identifiers come in order from a slice of a list with
/// distinct identifiers has distinct identifiers itself.
proof fn lemma_view_ids_from_snapshot(view: Seq<MessageView>, snap: Seq<MessageView>, start: int)
    requires
        msg_ids_unique(snap),
        0 <= start,
        start + view.len() <= snap.len(),
        forall|k: int| 0 <= k < view.len() ==> view[k].id == snap[start + k].id,
    ensures
        msg_ids_unique(view),
{
    assert forall|a: int, b: int| 0 <= a < b < view.len() implies view[a].id != view[b].id by {
        assert(view[a].id == snap[start + a].id);
        assert(view[b].id == snap[start + b].id);
    }
}

impl ChatCore {
    /// Well-formedness: the store is well-formed and the replay view
    /// carries distinct message identifiers.
    pub open spec fn wf(&self) -> bool {
        store_wf(self@.state.messages) && msg_ids_unique(self@.replay_view)
    }

    /// Admits a loaded application state, provided its store passes the
    /// well-formedness check; an ill-formed state is refused, and the
    /// caller falls back along its recovery chain.
    pub fn from_state(state: AppState) -> (r: Option<Self>)
        ensures
            r is Some <==> store_wf(state@.messages),
            r matches Some(c) ==> c.wf() && c@.state == state@ && c@.selected is None && c@.token
                == 0 && c@.active is None && c@.replay_view == Seq::<MessageView>::empty()
                && c@.pending is None,
    {
        if !state.messages.check_wf() {
            return None;
        }
        let ghost sv = state@;
        let c = ChatCore {
            state,
            selected: None,
            replay_token: 0,
            replay_active: None,
            replay_view: Vec::new(),
            replay_pending: None,
        };
        proof {
            assert(c@.replay_view =~= Seq::<MessageView>::empty());
            assert(c@.state == sv);
        }
        Some(c)
    }

    /// The whole application state, for persistence.
    pub fn app_state(&self) -> (r: &AppState)
        ensures
            r@ == self@.state,
    {
        &self.state
    }

    /// The selected contact, if any.
    pub fn selected_contact(&self) -> (r: Option<u64>)
        ensures
            r == self@.selected,
    {
        self.selected
    }

    /// Whether a replay is active for this contact.
    pub fn is_replay_active_for(&self, contact_id: u64) -> (b: bool)
        ensures
            b == (self@.active matches Some(ctx) && ctx.contact_id == contact_id),
    {
        match self.replay_active {
            Some(ctx) => ctx.contact_id == contact_id,
            None => false,
        }
    }

    /// The replay view list as the scheduler has built it so far.
    pub fn current_replay_messages(&self) -> (r: &Vec<Message>)
        ensures
            r.deep_view() == self@.replay_view,
    {
        &self.replay_view
    }

    /// The in-flight typing indicator, if any.
    pub fn current_pending_typing(&self) -> (r: Option<PendingTyping>)
        ensures
            r == self@.pending,
    {
        self.replay_pending
    }

    /// The sender that preceded the active replay's first message, when
    /// the replay belongs to the selected contact; affects how avatars
    /// are grouped at the head of the rendered list.
    pub fn replay_prior_sender(&self) -> (r: Option<u64>)
        ensures
            r == spec_prior_for_display(self@),
    {
        match self.replay_active {
            Some(ctx) => {
                match self.selected {
                    Some(id) => {
                        if ctx.contact_id == id {
                            ctx.prev_sender_id
                        } else {
                            None
                        }
                    },
                    None => None,
                }
            },
            None => None,
        }
    }

    /// The messages the UI renders, per the projection rule.
    pub fn visible_messages(&self) -> (r: Vec<Message>)
        requires
            self.wf(),
        ensures
            r.deep_view() == spec_project_messages(self@),
    {
        let show_replay = match self.replay_active {
            Some(ctx) => {
                match self.selected {
                    Some(id) => ctx.contact_id == id,
                    None => false,
                }
            },
            None => false,
        };
        if show_replay {
            clone_messages(&self.replay_view)
        } else {
            match self.selected {
                Some(id) => self.state.messages.snapshot(id),
                None => {
                    let r: Vec<Message> = Vec::new();
                    proof {
                        assert(r.deep_view() =~= Seq::<MessageView>::empty());
                    }
                    r
                },
            }
        }
    }

    /// The typing indicator the UI renders, per the projection rule.
    pub fn visible_pending(&self) -> (r: Option<PendingTyping>)
        ensures
            r == spec_project_pending(self@),
    {
        let show_replay = match self.replay_active {
            Some(ctx) => {
                match self.selected {
                    Some(id) => ctx.contact_id == id,
                    None => false,
                }
            },
            None => false,
        };
        if show_replay {
            self.replay_pending
        } else {
            None
        }
    }

    /// Cancels any replay: the token moves up so an in-flight run goes
    /// stale, and the context, replay view and indicator are cleared.
    /// With no active replay this changes nothing the projector shows.
    pub fn cancel_replay(&mut self)
        requires
            old(self).wf(),
            old(self)@.token < u64::MAX,
        ensures
            final(self).wf(),
            final(self)@ == spec_cancel(old(self)@),
    {
        self.replay_token = self.replay_token + 1;
        self.replay_active = None;
        self.replay_view = Vec::new();
        self.replay_pending = None;
        proof {
            assert(self@.replay_view =~= Seq::<MessageView>::empty());
            assert(self@ =~= spec_cancel(old(self)@));
        }
    }

    /// Selects a contact (or none). The newly selected contact's stored
    /// messages lose their entrance-animation flags, and a replay that
    /// belongs to a different contact is cancelled; switching away from
    /// a replay's contact therefore ends that replay for good.
    pub fn select_contact(&mut self, sel: Option<u64>)
        requires
            old(self).wf(),
            old(self)@.token < u64::MAX,
        ensures
            final(self).wf(),
            final(self)@ == spec_select(old(self)@, sel),
    {
        let ghost c0 = self@;
        self.selected = sel;
        if let Some(id) = sel {
            self.state.messages.clear_animate_all(id);
        }
        let ghost c1 = CoreView {
            selected: sel,
            state: StateView {
                messages: match sel {
                    Some(id) => spec_store_clear_animate(c0.state.messages, id),
                    None => c0.state.messages,
                },
                ..c0.state
            },
            ..c0
        };
        proof {
            assert(self@ =~= c1);
        }
        let cancel_needed = match self.replay_active {
            Some(ctx) => {
                match sel {
                    Some(id) => ctx.contact_id != id,
                    None => true,
                }
            },
            None => false,
        };
        if cancel_needed {
            self.replay_token = self.replay_token + 1;
            self.replay_active = None;
            self.replay_view = Vec::new();
            self.replay_pending = None;
            proof {
                assert(self@.replay_view =~= Seq::<MessageView>::empty());
                assert(self@ =~= spec_cancel(c1));
            }
        }
    }

    /// Starts a replay of the selected contact's messages from the
    /// message with this identifier (from the head when it is not
    /// found). Any prior run is superseded by the token move, and the
    /// replay view is reset to empty before any message is appended.
    /// Without a selected contact nothing happens.
    pub fn start_replay(&mut self, start_msg_id: u64, settings: ReplaySettings) -> (r: Option<
        ReplayRun,
    >)
        requires
            old(self).wf(),
            old(self)@.token < u64::MAX,
        ensures
            final(self).wf(),
            old(self)@.selected is None ==> r is None && *final(self) == *old(self),
            old(self)@.selected matches Some(cid) ==> {
                &&& final(self)@ == spec_start(old(self)@, cid, start_msg_id)
                &&& r matches Some(run) && run@ == spec_run_of(
                    old(self)@,
                    cid,
                    start_msg_id,
                    settings,
                )
                &&& run_inv(final(self)@, spec_run_of(old(self)@, cid, start_msg_id, settings))
            },
    {
        let cid = match self.selected {
            Some(id) => id,
            None => {
                return None;
            },
        };
        let ghost c0 = self@;
        let snapshot = self.state.messages.snapshot(cid);
        proof {
            assert(msg_ids_unique(snapshot.deep_view())) by {
                let entries = c0.state.messages.entries;
                if crate::store::spec_has_contact(entries, cid) {
                    let i = crate::store::spec_entry_index(entries, cid);
                    assert(msg_ids_unique(entries[i].messages));
                }
            }
        }
        let start = match find_msg_in(&snapshot, start_msg_id) {
            Some(i) => i,
            None => 0,
        };
        let prev_sender_id = if start > 0 {
            Some(snapshot[start - 1].sender_id)
        } else {
            None
        };
        let token = self.replay_token + 1;
        self.replay_token = token;
        self.replay_view = Vec::new();
        self.replay_pending = None;
        self.replay_active = Some(ReplayContext { contact_id: cid, prev_sender_id });
        let user_id = self.state.user_profile.id;
        let run = ReplayRun {
            token,
            user_id,
            settings,
            snapshot,
            start,
            pos: start,
            stage: RunStage::MsgStart,
        };
        proof {
            assert(self@.replay_view =~= Seq::<MessageView>::empty());
            assert(self@ =~= spec_start(c0, cid, start_msg_id));
            assert(run@ =~= spec_run_of(c0, cid, start_msg_id, settings));
        }
        Some(run)
    }

    /// Performs one scheduler step. The caller waits `out.wait_ms`
    /// milliseconds (none when zero), fires the requested sound, and
    /// schedules the deferred animate-off for the requested message
    /// before calling again; `out.finished` ends the loop. A stale run
    /// changes nothing: the token is compared before anything else.
    pub fn replay_step(&mut self, run: &mut ReplayRun) -> (out: StepOutcome)
        requires
            old(self).wf(),
            run_inv(old(self)@, old(run)@),
        ensures
            final(self).wf(),
            final(self)@ == spec_step(old(self)@, old(run)@).core,
            final(run)@ == spec_step(old(self)@, old(run)@).run,
            out == spec_step(old(self)@, old(run)@).out,
            run_inv(final(self)@, final(run)@),
            old(run)@.token != old(self)@.token ==> *final(self) == *old(self) && *final(run)
                == *old(run) && out.finished,
    {
        if run.token != self.replay_token {
            return StepOutcome { wait_ms: 0, sound: None, animate_off: None, finished: true };
        }
        match run.stage {
            RunStage::MsgStart => self.step_msg_start(run),
            RunStage::Dispatch => self.step_dispatch(run),
            RunStage::OtherReveal => self.step_other_reveal(run),
            RunStage::OtherSettle => self.step_other_settle(run),
            RunStage::SelfAppend => self.step_self_append(run),
            RunStage::PatchReactions => self.step_patch(run),
        }
    }

    /// The step at the top of a message.
    fn step_msg_start(&mut self, run: &mut ReplayRun) -> (out: StepOutcome)
        requires
            old(self).wf(),
            run_inv(old(self)@, old(run)@),
            old(run)@.token == old(self)@.token,
            old(run)@.stage == RunStage::MsgStart,
        ensures
            final(self).wf(),
            final(self)@ == spec_step_msg_start(old(self)@, old(run)@).core,
            final(run)@ == spec_step_msg_start(old(self)@, old(run)@).run,
            out == spec_step_msg_start(old(self)@, old(run)@).out,
            run_inv(final(self)@, final(run)@),
    {
        if run.pos >= run.snapshot.len() {
            self.replay_pending = None;
            proof {
                assert(self@ =~= spec_step_msg_start(old(self)@, old(run)@).core);
            }
            StepOutcome { wait_ms: 0, sound: None, animate_off: None, finished: true }
        } else {
            run.stage = RunStage::Dispatch;
            proof {
                assert(run@ =~= spec_step_msg_start(old(self)@, old(run)@).run);
            }
            StepOutcome {
                wait_ms: run.settings.gap_ms,
                sound: None,
                animate_off: None,
                finished: false,
            }
        }
    }

    /// The dispatch step on the current message.
    fn step_dispatch(&mut self, run: &mut ReplayRun) -> (out: StepOutcome)
        requires
            old(self).wf(),
            run_inv(old(self)@, old(run)@),
            old(run)@.token == old(self)@.token,
            old(run)@.stage == RunStage::Dispatch,
        ensures
            final(self).wf(),
            final(self)@ == spec_step_dispatch(old(self)@, old(run)@).core,
            final(run)@ == spec_step_dispatch(old(self)@, old(run)@).run,
            out == spec_step_dispatch(old(self)@, old(run)@).out,
            run_inv(final(self)@, final(run)@),
    {
        let ghost c0 = self@;
        let ghost r0 = run@;
        let ghost m = r0.snapshot[r0.pos];
        let kind = run.snapshot[run.pos].kind;
        let sender_id = run.snapshot[run.pos].sender_id;
        let msg_id = run.snapshot[run.pos].id;
        if matches!(kind, crate::models::MessageKind::Status) {
            let mut copy = run.snapshot[run.pos].clone();
            copy.animate = true;
            proof {
                assert(copy@ == replay_copy_full(m));
            }
            self.replay_view.push(copy);
            assert(run.pos < run.snapshot.len());
            run.pos = run.pos + 1;
            run.stage = RunStage::MsgStart;
            proof {
                assert(self@.replay_view =~= c0.replay_view.push(replay_copy_full(m)));
                assert(self@ =~= spec_step_dispatch(c0, r0).core);
                assert(run@ =~= spec_step_dispatch(c0, r0).run);
                lemma_view_ids_from_snapshot(self@.replay_view, r0.snapshot, r0.start);
            }
            StepOutcome {
                wait_ms: 0,
                sound: Some(
                    if sender_id == run.user_id {
                        SoundCue::SelfSender
                    } else {
                        SoundCue::OtherSender
                    },
                ),
                animate_off: Some(msg_id),
                finished: false,
            }
        } else if sender_id != run.user_id {
            let mut copy = run.snapshot[run.pos].clone();
            copy.animate = true;
            copy.reactions = Vec::new();
            proof {
                assert(copy@.reactions =~= Seq::<crate::models::ReactionView>::empty());
                assert(copy@ == replay_copy_clean(m));
            }
            self.replay_view.push(copy);
            self.replay_pending = Some(
                PendingTyping { id: msg_id, phase: ReplayTypingPhase::Typing },
            );
            let wait_ms = crate::timing::delay_for(&run.snapshot[run.pos], &run.settings);
            run.stage = RunStage::OtherReveal;
            proof {
                assert(self@.replay_view =~= c0.replay_view.push(replay_copy_clean(m)));
                assert(self@ =~= spec_step_dispatch(c0, r0).core);
                assert(run@ =~= spec_step_dispatch(c0, r0).run);
                lemma_view_ids_from_snapshot(self@.replay_view, r0.snapshot, r0.start);
            }
            StepOutcome { wait_ms, sound: None, animate_off: Some(msg_id), finished: false }
        } else {
            self.replay_pending = None;
            let wait_ms = crate::timing::delay_for(&run.snapshot[run.pos], &run.settings);
            run.stage = RunStage::SelfAppend;
            proof {
                assert(self@ =~= spec_step_dispatch(c0, r0).core);
                assert(run@ =~= spec_step_dispatch(c0, r0).run);
            }
            StepOutcome { wait_ms, sound: None, animate_off: None, finished: false }
        }
    }

    /// The reveal step of a non-self message.
    fn step_other_reveal(&mut self, run: &mut ReplayRun) -> (out: StepOutcome)
        requires
            old(self).wf(),
            run_inv(old(self)@, old(run)@),
            old(run)@.token == old(self)@.token,
            old(run)@.stage == RunStage::OtherReveal,
        ensures
            final(self).wf(),
            final(self)@ == spec_step_other_reveal(old(self)@, old(run)@).core,
            final(run)@ == spec_step_other_reveal(old(self)@, old(run)@).run,
            out == spec_step_other_reveal(old(self)@, old(run)@).out,
            run_inv(final(self)@, final(run)@),
    {
        let msg_id = run.snapshot[run.pos].id;
        self.replay_pending = Some(PendingTyping { id: msg_id, phase: ReplayTypingPhase::Reveal });
        run.stage = RunStage::OtherSettle;
        proof {
            assert(self@ =~= spec_step_other_reveal(old(self)@, old(run)@).core);
            assert(run@ =~= spec_step_other_reveal(old(self)@, old(run)@).run);
        }
        StepOutcome {
            wait_ms: REVEAL_SETTLE_MS,
            sound: Some(SoundCue::OtherSender),
            animate_off: None,
            finished: false,
        }
    }

    /// The settle step of a non-self message.
    fn step_other_settle(&mut self, run: &mut ReplayRun) -> (out: StepOutcome)
        requires
            old(self).wf(),
            run_inv(old(self)@, old(run)@),
            old(run)@.token == old(self)@.token,
            old(run)@.stage == RunStage::OtherSettle,
        ensures
            final(self).wf(),
            final(self)@ == spec_step_other_settle(old(self)@, old(run)@).core,
            final(run)@ == spec_step_other_settle(old(self)@, old(run)@).run,
            out == spec_step_other_settle(old(self)@, old(run)@).out,
            run_inv(final(self)@, final(run)@),
    {
        self.replay_pending = None;
        if run.snapshot[run.pos].reactions.len() > 0 {
            run.stage = RunStage::PatchReactions;
            proof {
                assert(self@ =~= spec_step_other_settle(old(self)@, old(run)@).core);
                assert(run@ =~= spec_step_other_settle(old(self)@, old(run)@).run);
            }
            StepOutcome {
                wait_ms: run.settings.gap_ms,
                sound: None,
                animate_off: None,
                finished: false,
            }
        } else {
            assert(run.pos < run.snapshot.len());
            run.pos = run.pos + 1;
            run.stage = RunStage::MsgStart;
            proof {
                assert(self@ =~= spec_step_other_settle(old(self)@, old(run)@).core);
                assert(run@ =~= spec_step_other_settle(old(self)@, old(run)@).run);
            }
            StepOutcome { wait_ms: 0, sound: None, animate_off: None, finished: false }
        }
    }

    /// The append step of a self message.
    fn step_self_append(&mut self, run: &mut ReplayRun) -> (out: StepOutcome)
        requires
            old(self).wf(),
            run_inv(old(self)@, old(run)@),
            old(run)@.token == old(self)@.token,
            old(run)@.stage == RunStage::SelfAppend,
        ensures
            final(self).wf(),
            final(self)@ == spec_step_self_append(old(self)@, old(run)@).core,
            final(run)@ == spec_step_self_append(old(self)@, old(run)@).run,
            out == spec_step_self_append(old(self)@, old(run)@).out,
            run_inv(final(self)@, final(run)@),
    {
        let ghost c0 = self@;
        let ghost r0 = run@;
        let ghost m = r0.snapshot[r0.pos];
        let msg_id = run.snapshot[run.pos].id;
        let mut copy = run.snapshot[run.pos].clone();
        copy.animate = true;
        copy.reactions = Vec::new();
        proof {
            assert(copy@.reactions =~= Seq::<crate::models::ReactionView>::empty());
            assert(copy@ == replay_copy_clean(m));
        }
        self.replay_view.push(copy);
        proof {
            assert(self@.replay_view =~= c0.replay_view.push(replay_copy_clean(m)));
            assert(self@ =~= spec_step_self_append(c0, r0).core);
            lemma_view_ids_from_snapshot(self@.replay_view, r0.snapshot, r0.start);
        }
        let with_reactions = run.snapshot[run.pos].reactions.len() > 0;
        if with_reactions {
            run.stage = RunStage::PatchReactions;
            proof {
                assert(run@ =~= spec_step_self_append(c0, r0).run);
            }
            StepOutcome {
                wait_ms: run.settings.gap_ms,
                sound: Some(SoundCue::SelfSender),
                animate_off: Some(msg_id),
                finished: false,
            }
        } else {
            assert(run.pos < run.snapshot.len());
            run.pos = run.pos + 1;
            run.stage = RunStage::MsgStart;
            proof {
                assert(run@ =~= spec_step_self_append(c0, r0).run);
            }
            StepOutcome {
                wait_ms: 0,
                sound: Some(SoundCue::SelfSender),
                animate_off: Some(msg_id),
                finished: false,
            }
        }
    }

    /// The reaction-patch step.
    fn step_patch(&mut self, run: &mut ReplayRun) -> (out: StepOutcome)
        requires
            old(self).wf(),
            run_inv(old(self)@, old(run)@),
            old(run)@.token == old(self)@.token,
            old(run)@.stage == RunStage::PatchReactions,
        ensures
            final(self).wf(),
            final(self)@ == spec_step_patch(old(self)@, old(run)@).core,
            final(run)@ == spec_step_patch(old(self)@, old(run)@).run,
            out == spec_step_patch(old(self)@, old(run)@).out,
            run_inv(final(self)@, final(run)@),
    {
        let ghost c0 = self@;
        let ghost r0 = run@;
        let ghost m = r0.snapshot[r0.pos];
        let msg_id = run.snapshot[run.pos].id;
        match find_msg_in(&self.replay_view, msg_id) {
            Some(idx) => {
                let mut item = self.replay_view.remove(idx);
                let ghost item0 = item@;
                item.reactions = clone_reactions(&run.snapshot[run.pos].reactions);
                self.replay_view.insert(idx, item);
                proof {
                    assert(self@.replay_view =~= c0.replay_view.update(
                        idx as int,
                        MessageView { reactions: m.reactions, ..item0 },
                    ));
                    assert(self@ =~= spec_step_patch(c0, r0).core);
                    assert forall|a: int, b: int|
                        0 <= a < b < self@.replay_view.len() implies self@.replay_view[a].id
                            != self@.replay_view[b].id by {
                        assert(self@.replay_view[a].id == c0.replay_view[a].id);
                        assert(self@.replay_view[b].id == c0.replay_view[b].id);
                    }
                }
            },
            None => {
                proof {
                    assert(self@ =~= spec_step_patch(c0, r0).core);
                }
            },
        }
        assert(run.pos < run.snapshot.len());
            run.pos = run.pos + 1;
        run.stage = RunStage::MsgStart;
        proof {
            assert(run@ =~= spec_step_patch(c0, r0).run);
        }
        StepOutcome { wait_ms: 0, sound: None, animate_off: None, finished: false }
    }

    /// The deferred animate-off against the replay view, fired by the
    /// surroundings some time after a message was appended there. It
    /// is idempotent and fire-and-forget: an identifier no longer in
    /// the list is a no-op, so a timer left over from a superseded run
    /// completes harmlessly.
    pub fn animate_off_in_replay(&mut self, msg_id: u64)
        requires
            old(self).wf(),
        ensures
            final(self).wf(),
            spec_has_msg(old(self)@.replay_view, msg_id) ==> final(self)@ == (CoreView {
                replay_view: old(self)@.replay_view.update(
                    spec_msg_index(old(self)@.replay_view, msg_id),
                    MessageView {
                        animate: false,
                        ..old(self)@.replay_view[spec_msg_index(old(self)@.replay_view, msg_id)]
                    },
                ),
                ..old(self)@
            }),
            !spec_has_msg(old(self)@.replay_view, msg_id) ==> *final(self) == *old(self),
    {
        let ghost c0 = self@;
        match find_msg_in(&self.replay_view, msg_id) {
            Some(idx) => {
                let mut item = self.replay_view.remove(idx);
                let ghost item0 = item@;
                item.animate = false;
                self.replay_view.insert(idx, item);
                proof {
                    assert(self@.replay_view =~= c0.replay_view.update(
                        idx as int,
                        MessageView { animate: false, ..item0 },
                    ));
                    assert(self@ =~= (CoreView { replay_view: self@.replay_view, ..c0 }));
                    assert forall|a: int, b: int|
                        0 <= a < b < self@.replay_view.len() implies self@.replay_view[a].id
                            != self@.replay_view[b].id by {
                        assert(self@.replay_view[a].id == c0.replay_view[a].id);
                        assert(self@.replay_view[b].id == c0.replay_view[b].id);
                    }
                }
            },
            None => {},
        }
    }

    /// Whether the replay token can still move up: every operation
    /// that cancels or starts a replay (or switches the contact)
    /// advances the 64-bit token and asks for this headroom.
    pub fn can_advance_token(&self) -> (b: bool)
        ensures
            b == (self@.token < u64::MAX),
    {
        self.replay_token < u64::MAX
    }

    /// Whether the store can still hand out a fresh message
    /// identifier; creation paths ask for this headroom.
    pub fn can_assign_message_id(&self) -> (b: bool)
        ensures
            b == (self@.state.messages.next_id < u64::MAX),
    {
        self.state.messages.next_fresh_id() < u64::MAX
    }

    /// The identity of the user, against which self messages are told
    /// apart.
    pub fn user_id(&self) -> (r: u64)
        ensures
            r == self@.state.user_profile.id,
    {
        self.state.user_profile.id
    }

    /// Creates a message at the tail of the selected contact's list
    /// with a fresh identifier, entrance animation on and no
    /// reactions. Without a selected contact nothing happens. The
    /// receipt tells the surroundings which sound to fire and which
    /// message to schedule the animate-off for.
    pub fn add_message(&mut self, sender_id: u64, content: String, kind: MessageKind) -> (r:
        Option<SendReceipt>)
        requires
            old(self).wf(),
            old(self)@.state.messages.next_id < u64::MAX,
        ensures
            final(self).wf(),
            old(self)@.selected is None ==> r is None && *final(self) == *old(self),
            old(self)@.selected matches Some(cid) ==> {
                &&& r == Some(
                    SendReceipt {
                        contact_id: cid,
                        msg_id: old(self)@.state.messages.next_id,
                        self_sender: sender_id == old(self)@.state.user_profile.id,
                    },
                )
                &&& final(self)@.state.messages.next_id == old(self)@.state.messages.next_id + 1
                &&& spec_msgs_of(final(self)@.state.messages, cid) == spec_msgs_of(
                    old(self)@.state.messages,
                    cid,
                ).push(
                    new_msg_view(old(self)@.state.messages.next_id, sender_id, content@, kind),
                )
                &&& forall|c: u64|
                    c != cid ==> spec_msgs_of(final(self)@.state.messages, c) == spec_msgs_of(
                        old(self)@.state.messages,
                        c,
                    )
                &&& forall|c: u64|
                    spec_has_contact(final(self)@.state.messages.entries, c) == (spec_has_contact(
                        old(self)@.state.messages.entries,
                        c,
                    ) || c == cid)
                &&& final(self)@ == (CoreView {
                    state: StateView {
                        messages: final(self)@.state.messages,
                        ..old(self)@.state
                    },
                    ..old(self)@
                })
            },
    {
        let cid = match self.selected {
            Some(id) => id,
            None => {
                return None;
            },
        };
        let self_sender = sender_id == self.state.user_profile.id;
        let msg_id = self.state.messages.append_message(cid, sender_id, content, kind);
        Some(SendReceipt { contact_id: cid, msg_id, self_sender })
    }

    /// Inserts a message immediately before the message carrying
    /// `before_id` in the selected contact's list (at the tail when
    /// the anchor is not found). A missing sender stands for the user.
    /// Without a selected contact nothing happens.
    pub fn insert_message(&mut self, before_id: u64, content: String, sender_id: Option<u64>) -> (
    r: Option<InsertReceipt>)
        requires
            old(self).wf(),
            old(self)@.state.messages.next_id < u64::MAX,
        ensures
            final(self).wf(),
            old(self)@.selected is None ==> r is None && *final(self) == *old(self),
            old(self)@.selected matches Some(cid) ==> {
                let sid = match sender_id {
                    Some(s) => s,
                    None => old(self)@.state.user_profile.id,
                };
                &&& r == Some(
                    InsertReceipt { contact_id: cid, msg_id: old(self)@.state.messages.next_id },
                )
                &&& final(self)@.state.messages.next_id == old(self)@.state.messages.next_id + 1
                &&& spec_msgs_of(final(self)@.state.messages, cid) == spec_msgs_of(
                    old(self)@.state.messages,
                    cid,
                ).insert(
                    spec_insert_pos(spec_msgs_of(old(self)@.state.messages, cid), before_id),
                    new_msg_view(
                        old(self)@.state.messages.next_id,
                        sid,
                        content@,
                        MessageKind::Normal,
                    ),
                )
                &&& forall|c: u64|
                    c != cid ==> spec_msgs_of(final(self)@.state.messages, c) == spec_msgs_of(
                        old(self)@.state.messages,
                        c,
                    )
                &&& final(self)@ == (CoreView {
                    state: StateView {
                        messages: final(self)@.state.messages,
                        ..old(self)@.state
                    },
                    ..old(self)@
                })
            },
    {
        let cid = match self.selected {
            Some(id) => id,
            None => {
                return None;
            },
        };
        let sid = match sender_id {
            Some(s) => s,
            None => self.state.user_profile.id,
        };
        let msg_id = self.state.messages.insert_before(cid, before_id, sid, content);
        Some(InsertReceipt { contact_id: cid, msg_id })
    }

    /// Deletes the message with this identifier from the selected
    /// contact's list; without a selected contact, or for an unknown
    /// identifier, nothing happens.
    pub fn delete_message(&mut self, msg_id: u64)
        requires
            old(self).wf(),
        ensures
            final(self).wf(),
            old(self)@.selected is None ==> *final(self) == *old(self),
            old(self)@.selected matches Some(cid) ==> {
                let msgs = spec_msgs_of(old(self)@.state.messages, cid);
                &&& spec_has_msg(msgs, msg_id) ==> spec_msgs_of(final(self)@.state.messages, cid)
                    == msgs.remove(spec_msg_index(msgs, msg_id))
                &&& !spec_has_msg(msgs, msg_id) ==> final(self)@ == old(self)@
                &&& final(self)@.state.messages.next_id == old(self)@.state.messages.next_id
                &&& forall|c: u64|
                    c != cid ==> spec_msgs_of(final(self)@.state.messages, c) == spec_msgs_of(
                        old(self)@.state.messages,
                        c,
                    )
                &&& final(self)@ == (CoreView {
                    state: StateView {
                        messages: final(self)@.state.messages,
                        ..old(self)@.state
                    },
                    ..old(self)@
                })
            },
    {
        let cid = match self.selected {
            Some(id) => id,
            None => {
                return ;
            },
        };
        self.state.messages.delete_message(cid, msg_id);
    }

    /// Replaces the content of the message with this identifier in the
    /// selected contact's list; without a selected contact, or for an
    /// unknown identifier, nothing happens.
    pub fn edit_message(&mut self, msg_id: u64, new_content: String)
        requires
            old(self).wf(),
        ensures
            final(self).wf(),
            old(self)@.selected is None ==> *final(self) == *old(self),
            old(self)@.selected matches Some(cid) ==> {
                let msgs = spec_msgs_of(old(self)@.state.messages, cid);
                &&& spec_has_msg(msgs, msg_id) ==> spec_msgs_of(final(self)@.state.messages, cid)
                    == msgs.update(
                    spec_msg_index(msgs, msg_id),
                    MessageView { content: new_content@, ..msgs[spec_msg_index(msgs, msg_id)] },
                )
                &&& !spec_has_msg(msgs, msg_id) ==> final(self)@ == old(self)@
                &&& forall|c: u64|
                    c != cid ==> spec_msgs_of(final(self)@.state.messages, c) == spec_msgs_of(
                        old(self)@.state.messages,
                        c,
                    )
                &&& final(self)@ == (CoreView {
                    state: StateView {
                        messages: final(self)@.state.messages,
                        ..old(self)@.state
                    },
                    ..old(self)@
                })
            },
    {
        let cid = match self.selected {
            Some(id) => id,
            None => {
                return ;
            },
        };
        self.state.messages.edit_content(cid, msg_id, new_content);
    }

    /// Appends a reaction by the user to the message with this
    /// identifier in the selected contact's list. The reaction is
    /// trimmed first; one empty after trimming is ignored, as are
    /// unknown identifiers and a missing selection.
    pub fn add_reaction(&mut self, msg_id: u64, content: &str)
        requires
            old(self).wf(),
        ensures
            final(self).wf(),
            old(self)@.selected is None ==> *final(self) == *old(self),
            old(self)@.selected matches Some(cid) ==> {
                let msgs = spec_msgs_of(old(self)@.state.messages, cid);
                let trimmed = crate::util::spec_trim(content@);
                &&& trimmed.len() == 0 ==> final(self)@ == old(self)@
                &&& trimmed.len() > 0 && spec_has_msg(msgs, msg_id) ==> spec_msgs_of(
                    final(self)@.state.messages,
                    cid,
                ) == msgs.update(
                    spec_msg_index(msgs, msg_id),
                    MessageView {
                        reactions: msgs[spec_msg_index(msgs, msg_id)].reactions.push(
                            crate::models::ReactionView {
                                content: trimmed,
                                sender_id: old(self)@.state.user_profile.id,
                            },
                        ),
                        ..msgs[spec_msg_index(msgs, msg_id)]
                    },
                )
                &&& !spec_has_msg(msgs, msg_id) ==> final(self)@ == old(self)@
                &&& forall|c: u64|
                    c != cid ==> spec_msgs_of(final(self)@.state.messages, c) == spec_msgs_of(
                        old(self)@.state.messages,
                        c,
                    )
                &&& final(self)@ == (CoreView {
                    state: StateView {
                        messages: final(self)@.state.messages,
                        ..old(self)@.state
                    },
                    ..old(self)@
                })
            },
    {
        let cid = match self.selected {
            Some(id) => id,
            None => {
                return ;
            },
        };
        let sender_id = self.state.user_profile.id;
        self.state.messages.add_reaction(cid, msg_id, content, sender_id);
    }

    /// Removes every reaction of the message with this identifier in
    /// the selected contact's list; without a selected contact, or for
    /// an unknown identifier, nothing happens.
    pub fn delete_reaction(&mut self, msg_id: u64)
        requires
            old(self).wf(),
        ensures
            final(self).wf(),
            old(self)@.selected is None ==> *final(self) == *old(self),
            old(self)@.selected matches Some(cid) ==> {
                let msgs = spec_msgs_of(old(self)@.state.messages, cid);
                &&& spec_has_msg(msgs, msg_id) ==> spec_msgs_of(final(self)@.state.messages, cid)
                    == msgs.update(
                    spec_msg_index(msgs, msg_id),
                    MessageView {
                        reactions: Seq::empty(),
                        ..msgs[spec_msg_index(msgs, msg_id)]
                    },
                )
                &&& !spec_has_msg(msgs, msg_id) ==> final(self)@ == old(self)@
                &&& forall|c: u64|
                    c != cid ==> spec_msgs_of(final(self)@.state.messages, c) == spec_msgs_of(
                        old(self)@.state.messages,
                        c,
                    )
                &&& final(self)@ == (CoreView {
                    state: StateView {
                        messages: final(self)@.state.messages,
                        ..old(self)@.state
                    },
                    ..old(self)@
                })
            },
    {
        let cid = match self.selected {
            Some(id) => id,
            None => {
                return ;
            },
        };
        self.state.messages.clear_reactions(cid, msg_id);
    }

    /// Empties the selected contact's message list (the list itself is
    /// kept, created when missing) and cancels any replay; without a
    /// selected contact nothing happens.
    pub fn clear_messages(&mut self)
        requires
            old(self).wf(),
            old(self)@.token < u64::MAX,
        ensures
            final(self).wf(),
            old(self)@.selected is None ==> *final(self) == *old(self),
            old(self)@.selected matches Some(cid) ==> {
                &&& spec_msgs_of(final(self)@.state.messages, cid) == Seq::<MessageView>::empty()
                &&& forall|c: u64|
                    c != cid ==> spec_msgs_of(final(self)@.state.messages, c) == spec_msgs_of(
                        old(self)@.state.messages,
                        c,
                    )
                &&& final(self)@.state.messages.next_id == old(self)@.state.messages.next_id
                &&& final(self)@.token == old(self)@.token + 1
                &&& final(self)@.active is None
                &&& final(self)@.replay_view == Seq::<MessageView>::empty()
                &&& final(self)@.pending is None
                &&& final(self)@.selected == old(self)@.selected
                &&& final(self)@.state == (StateView {
                    messages: final(self)@.state.messages,
                    ..old(self)@.state
                })
            },
    {
        let cid = match self.selected {
            Some(id) => id,
            None => {
                return ;
            },
        };
        let empty: Vec<Message> = Vec::new();
        proof {
            assert(empty.deep_view() =~= Seq::<MessageView>::empty());
        }
        self.state.messages.replace_all_messages(cid, empty);
        self.cancel_replay();
    }

    /// Removes the selected contact together with its messages,
    /// deselects it and cancels any replay; without a selected contact
    /// nothing happens.
    pub fn clear_chat(&mut self)
        requires
            old(self).wf(),
            old(self)@.token < u64::MAX,
        ensures
            final(self).wf(),
            old(self)@.selected is None ==> *final(self) == *old(self),
            old(self)@.selected matches Some(cid) ==> {
                &&& !spec_has_contact(final(self)@.state.messages.entries, cid)
                &&& spec_msgs_of(final(self)@.state.messages, cid) == Seq::<MessageView>::empty()
                &&& forall|c: u64|
                    c != cid ==> spec_msgs_of(final(self)@.state.messages, c) == spec_msgs_of(
                        old(self)@.state.messages,
                        c,
                    )
                &&& final(self)@.state.contacts == old(self)@.state.contacts.filter(
                    |k: crate::models::ContactView| k.id != cid,
                )
                &&& final(self)@.selected is None
                &&& final(self)@.token == old(self)@.token + 1
                &&& final(self)@.active is None
                &&& final(self)@.replay_view == Seq::<MessageView>::empty()
                &&& final(self)@.pending is None
                &&& final(self)@.state == (StateView {
                    messages: final(self)@.state.messages,
                    contacts: final(self)@.state.contacts,
                    ..old(self)@.state
                })
            },
    {
        let cid = match self.selected {
            Some(id) => id,
            None => {
                return ;
            },
        };
        self.state.messages.remove_contact(cid);
        self.remove_contact_row(cid);
        self.selected = None;
        self.cancel_replay();
    }

    /// Removes every contact row carrying this identifier from the
    /// contact list.
    fn remove_contact_row(&mut self, cid: u64)
        ensures
            final(self)@.state.contacts == old(self)@.state.contacts.filter(
                |k: crate::models::ContactView| k.id != cid,
            ),
            final(self)@ == (CoreView {
                state: StateView { contacts: final(self)@.state.contacts, ..old(self)@.state },
                ..old(self)@
            }),
    {
        let mut out: Vec<crate::models::Contact> = Vec::new();
        let n = self.state.contacts.len();
        proof {
            assert(self@.state.contacts.take(0) =~= Seq::<crate::models::ContactView>::empty());
            reveal(Seq::filter);
        }
        for i in 0..n
            invariant
                n == self.state.contacts.len(),
                self@ == (CoreView {
                    state: StateView { contacts: self@.state.contacts, ..old(self)@.state },
                    ..old(self)@
                }),
                self@.state.contacts == old(self)@.state.contacts,
                out.deep_view() == self@.state.contacts.take(i as int).filter(
                    |k: crate::models::ContactView| k.id != cid,
                ),
        {
            let ghost prefix = self@.state.contacts.take(i as int);
            let ghost prefix1 = self@.state.contacts.take(i + 1);
            if self.state.contacts[i].id != cid {
                out.push(self.state.contacts[i].clone_contact());
            }
            proof {
                reveal(Seq::filter);
                assert(prefix1.drop_last() =~= prefix);
                assert(prefix1.last() == self@.state.contacts[i as int]);
                assert(out.deep_view() =~= prefix1.filter(
                    |k: crate::models::ContactView| k.id != cid,
                ));
            }
        }
        proof {
            assert(self@.state.contacts.take(n as int) =~= self@.state.contacts);
        }
        self.state.contacts = out;
    }

    /// Sets the chat-header style of the first contact row carrying
    /// the selected contact's identifier; without a selected contact,
    /// or without such a row, nothing happens.
    pub fn update_chat_head_style(&mut self, style: crate::models::ChatHeadStyle)
        ensures
            old(self)@.selected is None ==> *final(self) == *old(self),
            old(self)@.selected matches Some(cid) ==> {
                let cs = old(self)@.state.contacts;
                &&& (exists|i: int| 0 <= i < cs.len() && cs[i].id == cid) ==> final(self)@.state.contacts == cs.update(
                    crate::state::first_contact_index(cs, cid),
                    crate::models::ContactView {
                        chat_head_style: style,
                        ..cs[crate::state::first_contact_index(cs, cid)]
                    },
                )
                &&& !(exists|i: int| 0 <= i < cs.len() && cs[i].id == cid) ==> final(self)@
                    == old(self)@
                &&& final(self)@ == (CoreView {
                    state: StateView {
                        contacts: final(self)@.state.contacts,
                        ..old(self)@.state
                    },
                    ..old(self)@
                })
            },
    {
        let cid = match self.selected {
            Some(id) => id,
            None => {
                return ;
            },
        };
        let ghost cs0 = self@.state.contacts;
        let m = self.state.contacts.len();
        let mut done = false;
        for i in 0..m
            invariant
                m == self.state.contacts.len(),
                cs0 == old(self)@.state.contacts,
                self@ == (CoreView {
                    state: StateView { contacts: self@.state.contacts, ..old(self)@.state },
                    ..old(self)@
                }),
                !done ==> self@.state.contacts == cs0 && (forall|k: int|
                    0 <= k < i ==> cs0[k].id != cid),
                done ==> (exists|k: int| 0 <= k < cs0.len() && cs0[k].id == cid)
                    && self@.state.contacts == cs0.update(
                    crate::state::first_contact_index(cs0, cid),
                    crate::models::ContactView {
                        chat_head_style: style,
                        ..cs0[crate::state::first_contact_index(cs0, cid)]
                    },
                ),
        {
            if !done && self.state.contacts[i].id == cid {
                let mut c = self.state.contacts.remove(i);
                let ghost c0 = c@;
                c.chat_head_style = style;
                self.state.contacts.insert(i, c);
                done = true;
                proof {
                    assert(cs0[i as int].id == cid);
                    let j = crate::state::first_contact_index(cs0, cid);
                    assert(0 <= j < cs0.len() && cs0[j].id == cid && (forall|k: int|
                        0 <= k < j ==> cs0[k].id != cid)) by {
                        assert(0 <= i < cs0.len() && cs0[i as int].id == cid && (forall|k: int|
                            0 <= k < i ==> cs0[k].id != cid));
                    }
                    assert(j == i);
                    assert(c0 == cs0[i as int]);
                    assert(self@.state.contacts =~= cs0.update(
                        i as int,
                        crate::models::ContactView { chat_head_style: style, ..cs0[i as int] },
                    ));
                }
            }
        }
        proof {
            if !done {
                assert forall|k: int| 0 <= k < cs0.len() implies cs0[k].id != cid by {}
            }
        }
    }

    /// Updates the user's display name and avatar.
    pub fn set_profile(&mut self, name: String, avatar_url: String)
        ensures
            final(self)@ == (CoreView {
                state: StateView {
                    user_profile: crate::models::ProfileView {
                        id: old(self)@.state.user_profile.id,
                        name: name@,
                        avatar_url: avatar_url@,
                    },
                    ..old(self)@.state
                },
                ..old(self)@
            }),
            old(self).wf() ==> final(self).wf(),
    {
        self.state.user_profile.name = name;
        self.state.user_profile.avatar_url = avatar_url;
        proof {
            assert(self@ =~= (CoreView {
                state: StateView {
                    user_profile: crate::models::ProfileView {
                        id: old(self)@.state.user_profile.id,
                        name: self@.state.user_profile.name,
                        avatar_url: self@.state.user_profile.avatar_url,
                    },
                    ..old(self)@.state
                },
                ..old(self)@
            }));
        }
    }

    /// Opens a chat with a single participant: a contact row carrying
    /// the participant's identifier is created unless one exists, and
    /// the contact is selected (with the usual selection effects).
    pub fn open_single_chat(&mut self, op: &crate::models::Operator)
        requires
            old(self).wf(),
            old(self)@.token < u64::MAX,
        ensures
            final(self).wf(),
            ({
                let cs = old(self)@.state.contacts;
                let cs1 = if exists|i: int| 0 <= i < cs.len() && cs[i].id == op@.id {
                    cs
                } else {
                    cs.push(
                        crate::models::ContactView {
                            id: op@.id,
                            unread_count: 0,
                            chat_head_style: crate::models::ChatHeadStyle::Default,
                            name: op@.name,
                            avatar_url: op@.avatar_url,
                            participant_ids: seq![op@.id],
                            is_group: false,
                        },
                    )
                };
                final(self)@ == spec_select(
                    CoreView {
                        state: StateView { contacts: cs1, ..old(self)@.state },
                        ..old(self)@
                    },
                    Some(op@.id),
                )
            }),
    {
        let ghost c0 = self@;
        let n = self.state.contacts.len();
        let mut found = false;
        for i in 0..n
            invariant
                n == self.state.contacts.len(),
                *self == *old(self),
                found ==> exists|k: int|
                    0 <= k < self@.state.contacts.len() && self@.state.contacts[k].id == op@.id,
                !found ==> forall|k: int| 0 <= k < i ==> self@.state.contacts[k].id != op@.id,
        {
            if self.state.contacts[i].id == op.id {
                proof {
                    assert(self@.state.contacts[i as int].id == op@.id);
                }
                found = true;
            }
        }
        if !found {
            let mut participant_ids: Vec<u64> = Vec::new();
            participant_ids.push(op.id);
            proof {
                assert(participant_ids@ =~= seq![op@.id]);
            }
            let row = crate::models::Contact {
                id: op.id,
                unread_count: 0,
                chat_head_style: crate::models::ChatHeadStyle::Default,
                name: op.name.clone(),
                avatar_url: op.avatar_url.clone(),
                participant_ids,
                is_group: false,
            };
            let ghost rowv = row@;
            self.state.contacts.push(row);
            proof {
                assert(self@.state.contacts =~= c0.state.contacts.push(rowv));
                assert(self@ =~= (CoreView {
                    state: StateView { contacts: self@.state.contacts, ..c0.state },
                    ..c0
                }));
            }
        }
        self.select_contact(Some(op.id));
    }

    /// Creates a group chat under a fresh identifier with the given
    /// members, selects it (with the usual selection effects) and
    /// hands the identifier back.
    pub fn create_group_chat(&mut self, name: String, avatar_url: String, member_ids: Vec<u64>)
        -> (group_id: u64)
        requires
            old(self).wf(),
            old(self)@.token < u64::MAX,
            old(self)@.state.messages.next_id < u64::MAX,
        ensures
            final(self).wf(),
            group_id == old(self)@.state.messages.next_id,
            ({
                let c1 = CoreView {
                    state: StateView {
                        messages: crate::store::StoreView {
                            next_id: (old(self)@.state.messages.next_id + 1) as u64,
                            ..old(self)@.state.messages
                        },
                        contacts: old(self)@.state.contacts.push(
                            crate::models::ContactView {
                                id: group_id,
                                unread_count: 0,
                                chat_head_style: crate::models::ChatHeadStyle::Default,
                                name: name@,
                                avatar_url: avatar_url@,
                                participant_ids: member_ids@,
                                is_group: true,
                            },
                        ),
                        ..old(self)@.state
                    },
                    ..old(self)@
                };
                final(self)@ == spec_select(c1, Some(group_id))
            }),
    {
        let ghost c0 = self@;
        let group_id = self.state.messages.assign_id();
        let row = crate::models::Contact {
            id: group_id,
            unread_count: 0,
            chat_head_style: crate::models::ChatHeadStyle::Default,
            name,
            avatar_url,
            participant_ids: member_ids,
            is_group: true,
        };
        let ghost rowv = row@;
        self.state.contacts.push(row);
        proof {
            assert(self@.state.contacts =~= c0.state.contacts.push(rowv));
            assert(self@ =~= (CoreView {
                state: StateView {
                    messages: crate::store::StoreView {
                        next_id: (c0.state.messages.next_id + 1) as u64,
                        ..c0.state.messages
                    },
                    contacts: self@.state.contacts,
                    ..c0.state
                },
                ..c0
            }));
        }
        self.select_contact(Some(group_id));
        group_id
    }

    /// Records the user's choice to hide the tutorial link for good.
    pub fn set_hide_tutorial(&mut self, hide: bool)
        ensures
            final(self)@ == (CoreView {
                state: StateView { hide_tutorial: hide, ..old(self)@.state },
                ..old(self)@
            }),
            old(self).wf() ==> final(self).wf(),
    {
        self.state.hide_tutorial = hide;
        proof {
            assert(self@ =~= (CoreView {
                state: StateView { hide_tutorial: hide, ..old(self)@.state },
                ..old(self)@
            }));
        }
    }

    /// Snoozes the update notice until another day (or clears the
    /// snooze).
    pub fn set_update_snooze(&mut self, date: Option<String>)
        ensures
            final(self)@ == (CoreView {
                state: StateView { update_snooze_date: date.deep_view(), ..old(self)@.state },
                ..old(self)@
            }),
            old(self).wf() ==> final(self).wf(),
    {
        let ghost dv = date.deep_view();
        self.state.update_snooze_date = date;
        proof {
            assert(self@ =~= (CoreView {
                state: StateView { update_snooze_date: dv, ..old(self)@.state },
                ..old(self)@
            }));
        }
    }

    /// Adds a participant under a fresh identifier and hands the
    /// identifier back.
    pub fn add_operator(&mut self, name: String, avatar_url: String) -> (new_id: u64)
        requires
            old(self).wf(),
            old(self)@.state.messages.next_id < u64::MAX,
        ensures
            final(self).wf(),
            new_id == old(self)@.state.messages.next_id,
            final(self)@.state.messages.next_id == old(self)@.state.messages.next_id + 1,
            final(self)@.state.messages.entries == old(self)@.state.messages.entries,
            final(self)@.state.operators == old(self)@.state.operators.push(
                crate::models::OperatorView { id: new_id, name: name@, avatar_url: avatar_url@ },
            ),
            final(self)@ == (CoreView {
                state: StateView {
                    messages: final(self)@.state.messages,
                    operators: final(self)@.state.operators,
                    ..old(self)@.state
                },
                ..old(self)@
            }),
    {
        self.state.add_operator(name, avatar_url)
    }

    /// Removes every participant carrying this identifier.
    pub fn delete_operator(&mut self, id: u64)
        requires
            old(self).wf(),
        ensures
            final(self).wf(),
            final(self)@.state.operators == old(self)@.state.operators.filter(
                |o: crate::models::OperatorView| o.id != id,
            ),
            final(self)@ == (CoreView {
                state: StateView { operators: final(self)@.state.operators, ..old(self)@.state },
                ..old(self)@
            }),
    {
        self.state.delete_operator(id);
    }

    /// Renames the first participant carrying this identifier and
    /// keeps a contact sharing the identifier in step.
    pub fn update_operator(&mut self, id: u64, name: String, avatar_url: String)
        requires
            old(self).wf(),
        ensures
            final(self).wf(),
            ({
                let ops = old(self)@.state.operators;
                if exists|i: int| 0 <= i < ops.len() && ops[i].id == id {
                    final(self)@.state.operators == ops.update(
                        crate::state::first_op_index(ops, id),
                        crate::models::OperatorView { id, name: name@, avatar_url: avatar_url@ },
                    )
                } else {
                    final(self)@.state.operators == ops
                }
            }),
            ({
                let cs = old(self)@.state.contacts;
                if exists|i: int| 0 <= i < cs.len() && cs[i].id == id {
                    final(self)@.state.contacts == cs.update(
                        crate::state::first_contact_index(cs, id),
                        crate::models::ContactView {
                            name: name@,
                            avatar_url: avatar_url@,
                            ..cs[crate::state::first_contact_index(cs, id)]
                        },
                    )
                } else {
                    final(self)@.state.contacts == cs
                }
            }),
            final(self)@ == (CoreView {
                state: StateView {
                    operators: final(self)@.state.operators,
                    contacts: final(self)@.state.contacts,
                    ..old(self)@.state
                },
                ..old(self)@
            }),
    {
        self.state.update_operator(id, name, avatar_url);
    }

    /// The deferred animate-off against the store, fired by the
    /// surroundings some time after a message was created. Idempotent
    /// and fire-and-forget: a message deleted in the meantime is a
    /// no-op.
    pub fn animate_off_in_store(&mut self, contact_id: u64, msg_id: u64)
        requires
            old(self).wf(),
        ensures
            final(self).wf(),
            final(self)@ == (CoreView {
                state: StateView { messages: final(self)@.state.messages, ..old(self)@.state },
                ..old(self)@
            }),
            final(self)@.state.messages.next_id == old(self)@.state.messages.next_id,
            forall|c: u64|
                c != contact_id ==> spec_msgs_of(final(self)@.state.messages, c) == spec_msgs_of(
                    old(self)@.state.messages,
                    c,
                ),
            spec_has_msg(spec_msgs_of(old(self)@.state.messages, contact_id), msg_id)
                ==> spec_msgs_of(final(self)@.state.messages, contact_id) == spec_msgs_of(
                old(self)@.state.messages,
                contact_id,
            ).update(
                spec_msg_index(spec_msgs_of(old(self)@.state.messages, contact_id), msg_id),
                MessageView {
                    animate: false,
                    ..spec_msgs_of(old(self)@.state.messages, contact_id)[spec_msg_index(
                        spec_msgs_of(old(self)@.state.messages, contact_id),
                        msg_id,
                    )]
                },
            ),
            !spec_has_msg(spec_msgs_of(old(self)@.state.messages, contact_id), msg_id)
                ==> spec_msgs_of(final(self)@.state.messages, contact_id) == spec_msgs_of(
                old(self)@.state.messages,
                contact_id,
            ),
    {
        self.state.messages.set_animate_false(contact_id, msg_id);
    }
}

} // verus!

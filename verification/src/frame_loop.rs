//! The decisions of the frame loop.
//!
//! The loop itself lives with whoever owns the display and the lights: it
//! carries out an action, reports what came of it as an event, and asks
//! `step` what to do next. One turn of the loop is
//!
//! ```text
//!   Acquire -- frame -----> Emit -- done --> Sleep(pace) -- slept --> Acquire
//!      |  ^                   |
//!      |  +-- slept -- Sleep(backoff) <-- not ready
//!      +-- failed --> Halt    +-- failed --> Halt
//! ```
//!
//! A frame that is not ready yet is expected and is asked for again after a
//! short wait, without limit. Every other failure ends the loop for good.

use vstd::prelude::*;
use crate::config::RunConfig;
use crate::frame::Frame;
use crate::pipeline::{frame_updates, render_frame, CellUpdate};

verus! {

/// Why the loop ended.
#[derive(Clone, Copy, Debug, PartialEq, Eq, Structural)]
pub enum HaltReason {
    /// The display could not be captured.
    CaptureFailed,
    /// The lights did not take the batch.
    EmitFailed,
    /// An event was reported that the last action cannot lead to.
    OutOfTurn,
}

/// What the loop is waiting for.
#[derive(Clone, Copy, Debug, PartialEq, Eq, Structural)]
pub enum LoopState {
    /// A frame was asked for.
    AwaitingFrame,
    /// The frame was not ready; the short wait is running.
    BackingOff,
    /// A batch was handed to the lights.
    AwaitingEmit,
    /// The lights are set; the wait between updates is running.
    Pacing,
    /// The loop has ended.
    Halted(HaltReason),
}

/// What came of the last action.
#[derive(Debug)]
pub enum LoopEvent {
    /// The display gave a frame.
    FrameCaptured(Frame),
    /// The display has no frame yet.
    FrameNotReady,
    /// The display failed otherwise.
    CaptureFailed,
    /// The lights took the batch.
    Emitted,
    /// The lights failed.
    EmitFailed,
    /// A wait is over.
    Slept,
}

/// What to do next.
#[derive(Debug)]
pub enum LoopAction {
    /// Ask the display for a frame.
    Acquire,
    /// Wait for so many milliseconds.
    Sleep(u64),
    /// Hand the whole batch to the lights in one call.
    Emit(Vec<CellUpdate>),
    /// Stop: nothing more is to be done.
    Halt(HaltReason),
}

/// A `LoopAction` with its batch as a sequence.
pub enum LoopActionView {
    Acquire,
    Sleep(u64),
    Emit(Seq<CellUpdate>),
    Halt(HaltReason),
}

impl View for LoopAction {
    type V = LoopActionView;

    open spec fn view(&self) -> LoopActionView {
        match *self {
            LoopAction::Acquire => LoopActionView::Acquire,
            LoopAction::Sleep(ms) => LoopActionView::Sleep(ms),
            LoopAction::Emit(batch) => LoopActionView::Emit(batch@),
            LoopAction::Halt(reason) => LoopActionView::Halt(reason),
        }
    }
}

/// The state that follows `state` when `event` is reported.
pub open spec fn next_state(state: LoopState, event: LoopEvent) -> LoopState {
    match (state, event) {
        (LoopState::Halted(reason), _) => LoopState::Halted(reason),
        (LoopState::AwaitingFrame, LoopEvent::FrameCaptured(_)) => LoopState::AwaitingEmit,
        (LoopState::AwaitingFrame, LoopEvent::FrameNotReady) => LoopState::BackingOff,
        (LoopState::AwaitingFrame, LoopEvent::CaptureFailed) => LoopState::Halted(
            HaltReason::CaptureFailed,
        ),
        (LoopState::BackingOff, LoopEvent::Slept) => LoopState::AwaitingFrame,
        (LoopState::AwaitingEmit, LoopEvent::Emitted) => LoopState::Pacing,
        (LoopState::AwaitingEmit, LoopEvent::EmitFailed) => LoopState::Halted(
            HaltReason::EmitFailed,
        ),
        (LoopState::Pacing, LoopEvent::Slept) => LoopState::AwaitingFrame,
        _ => LoopState::Halted(HaltReason::OutOfTurn),
    }
}

/// The action that answers `event` in `state`.
pub open spec fn next_action(state: LoopState, event: LoopEvent, config: RunConfig)
    -> LoopActionView {
    match next_state(state, event) {
        LoopState::AwaitingFrame => LoopActionView::Acquire,
        LoopState::BackingOff => LoopActionView::Sleep(config.backoff_millis),
        LoopState::AwaitingEmit => match event {
            LoopEvent::FrameCaptured(frame) => LoopActionView::Emit(frame_updates(frame, config)),
            _ => LoopActionView::Halt(HaltReason::OutOfTurn),
        },
        LoopState::Pacing => LoopActionView::Sleep(config.pace_millis),
        LoopState::Halted(reason) => LoopActionView::Halt(reason),
    }
}

/// The state the loop begins in. Its first action is to ask for a frame.
pub fn start() -> (r: (LoopState, LoopAction))
    ensures
        r.0 == LoopState::AwaitingFrame,
        r.1@ == LoopActionView::Acquire,
{
    (LoopState::AwaitingFrame, LoopAction::Acquire)
}

/// Decides what follows `event` in `state`: the next state and the action to
/// carry out.
pub fn step(state: LoopState, event: LoopEvent, config: &RunConfig) -> (r: (LoopState, LoopAction))
    requires
        config.wf(),
        event matches LoopEvent::FrameCaptured(frame) ==> frame.wf(),
    ensures
        r.0 == next_state(state, event),
        r.1@ == next_action(state, event, *config),
{
    match state {
        LoopState::Halted(reason) => (LoopState::Halted(reason), LoopAction::Halt(reason)),
        LoopState::AwaitingFrame => match event {
            LoopEvent::FrameCaptured(frame) => {
                let batch = render_frame(&frame, config);
                (LoopState::AwaitingEmit, LoopAction::Emit(batch))
            },
            LoopEvent::FrameNotReady => (
                LoopState::BackingOff,
                LoopAction::Sleep(config.backoff_millis),
            ),
            LoopEvent::CaptureFailed => halt(HaltReason::CaptureFailed),
            _ => halt(HaltReason::OutOfTurn),
        },
        LoopState::BackingOff => match event {
            LoopEvent::Slept => (LoopState::AwaitingFrame, LoopAction::Acquire),
            _ => halt(HaltReason::OutOfTurn),
        },
        LoopState::AwaitingEmit => match event {
            LoopEvent::Emitted => (LoopState::Pacing, LoopAction::Sleep(config.pace_millis)),
            LoopEvent::EmitFailed => halt(HaltReason::EmitFailed),
            _ => halt(HaltReason::OutOfTurn),
        },
        LoopState::Pacing => match event {
            LoopEvent::Slept => (LoopState::AwaitingFrame, LoopAction::Acquire),
            _ => halt(HaltReason::OutOfTurn),
        },
    }
}

/// The end of the loop for `reason`.
pub fn halt(reason: HaltReason) -> (r: (LoopState, LoopAction))
    ensures
        r.0 == LoopState::Halted(reason),
        r.1@ == LoopActionView::Halt(reason),
{
    (LoopState::Halted(reason), LoopAction::Halt(reason))
}

/// The state reached from `state` after all of `events`, in order.
pub open spec fn state_after(state: LoopState, events: Seq<LoopEvent>) -> LoopState
    decreases events.len(),
{
    if events.len() == 0 {
        state
    } else {
        next_state(state_after(state, events.drop_last()), events.last())
    }
}

/// `n` times in a row: the frame is not ready, and the short wait passes.
pub open spec fn retries(n: nat) -> Seq<LoopEvent>
    decreases n,
{
    if n == 0 {
        Seq::empty()
    } else {
        retries((n - 1) as nat).push(LoopEvent::FrameNotReady).push(LoopEvent::Slept)
    }
}

/// Once halted, the loop stays halted for the same reason and never again
/// asks for a frame, whatever is reported.
pub proof fn halt_is_final(reason: HaltReason, event: LoopEvent, config: RunConfig)
    ensures
        next_state(LoopState::Halted(reason), event) == LoopState::Halted(reason),
        next_action(LoopState::Halted(reason), event, config) == LoopActionView::Halt(reason),
{
}

/// No sequence of events leads out of a halt.
pub proof fn halt_is_final_forever(reason: HaltReason, events: Seq<LoopEvent>)
    ensures
        state_after(LoopState::Halted(reason), events) == LoopState::Halted(reason),
    decreases events.len(),
{
    if events.len() > 0 {
        halt_is_final_forever(reason, events.drop_last());
    }
}

/// A frame that is not ready never ends the loop: the answer is the short
/// wait, and after it a frame is asked for again.
pub proof fn not_ready_is_retried(config: RunConfig)
    ensures
        next_state(LoopState::AwaitingFrame, LoopEvent::FrameNotReady) == LoopState::BackingOff,
        next_action(LoopState::AwaitingFrame, LoopEvent::FrameNotReady, config)
            == LoopActionView::Sleep(config.backoff_millis),
        next_state(LoopState::BackingOff, LoopEvent::Slept) == LoopState::AwaitingFrame,
        next_action(LoopState::BackingOff, LoopEvent::Slept, config) == LoopActionView::Acquire,
{
}

/// However often the frame was not ready, the loop is then where it began:
/// waiting for a frame, not halted.
pub proof fn retries_never_halt(n: nat)
    ensures
        state_after(LoopState::AwaitingFrame, retries(n)) == LoopState::AwaitingFrame,
    decreases n,
{
    if n > 0 {
        retries_never_halt((n - 1) as nat);
        let before = retries((n - 1) as nat);
        let mid = before.push(LoopEvent::FrameNotReady);
        let all = mid.push(LoopEvent::Slept);
        assert(all.drop_last() =~= mid);
        assert(mid.drop_last() =~= before);
        assert(all.last() == LoopEvent::Slept);
        assert(mid.last() == LoopEvent::FrameNotReady);
        assert(state_after(LoopState::AwaitingFrame, mid) == LoopState::BackingOff);
        assert(state_after(LoopState::AwaitingFrame, all) == LoopState::AwaitingFrame);
    }
}

/// The loop halts only on a failure of the display or of the lights, or on
/// an event out of turn; and a frame is asked for only at the start, after a
/// wait, never after a failure.
pub proof fn only_failures_halt(state: LoopState, event: LoopEvent)
    requires
        !(state is Halted),
        next_state(state, event) is Halted,
    ensures
        next_state(state, event) == LoopState::Halted(HaltReason::CaptureFailed) ==> state
            == LoopState::AwaitingFrame && event is CaptureFailed,
        next_state(state, event) == LoopState::Halted(HaltReason::EmitFailed) ==> state
            == LoopState::AwaitingEmit && event is EmitFailed,
        !(event is FrameNotReady && state == LoopState::AwaitingFrame),
{
}

/// A batch goes to the lights exactly when a frame arrives that was asked
/// for, and it is the batch of that frame.
pub proof fn one_batch_per_frame(state: LoopState, event: LoopEvent, config: RunConfig)
    ensures
        next_action(state, event, config) is Emit <==> (state == LoopState::AwaitingFrame
            && event is FrameCaptured),
        next_action(state, event, config) is Emit ==> next_action(state, event, config)
            == LoopActionView::Emit(frame_updates(event->FrameCaptured_0, config)),
{
}

} // verus!

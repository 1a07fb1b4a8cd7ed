use backlight::color::Color;
use backlight::config::RunConfig;
use backlight::frame::Frame;
use backlight::frame_loop::{halt, start, step, HaltReason, LoopAction, LoopEvent, LoopState};

fn gray_frame() -> Frame {
    Frame::new(16, 16, vec![128u8; 4 * 16 * 16]).unwrap()
}

/// What a display answers, one entry per request.
enum Answer {
    NotReady,
    Failed,
    Frame,
}

/// Runs the loop against scripted answers until it halts or the script ends.
/// Returns the final state, the number of frames asked for, the sleeps taken
/// and the number of batches emitted.
fn drive(script: Vec<Answer>, config: &RunConfig) -> (LoopState, usize, Vec<u64>, usize) {
    let mut answers = script.into_iter();
    let mut acquired = 0;
    let mut sleeps = Vec::new();
    let mut emitted = 0;
    let (mut state, mut action) = start();
    loop {
        let event = match action {
            LoopAction::Acquire => match answers.next() {
                Some(Answer::NotReady) => {
                    acquired += 1;
                    LoopEvent::FrameNotReady
                }
                Some(Answer::Failed) => {
                    acquired += 1;
                    LoopEvent::CaptureFailed
                }
                Some(Answer::Frame) => {
                    acquired += 1;
                    LoopEvent::FrameCaptured(gray_frame())
                }
                None => return (state, acquired, sleeps, emitted),
            },
            LoopAction::Sleep(ms) => {
                sleeps.push(ms);
                LoopEvent::Slept
            }
            LoopAction::Emit(batch) => {
                assert_eq!(batch.len(), 64);
                for u in &batch {
                    assert_eq!(u.color, Color::new(147, 147, 147));
                }
                emitted += 1;
                LoopEvent::Emitted
            }
            LoopAction::Halt(_) => return (state, acquired, sleeps, emitted),
        };
        let next = step(state, event, config);
        state = next.0;
        action = next.1;
    }
}

#[test]
fn the_loop_starts_by_asking_for_a_frame() {
    let (state, action) = start();
    assert_eq!(state, LoopState::AwaitingFrame);
    assert!(matches!(action, LoopAction::Acquire));
}

#[test]
fn not_ready_three_times_then_success() {
    let config = RunConfig::default();
    let script = vec![Answer::NotReady, Answer::NotReady, Answer::NotReady, Answer::Frame];
    let (state, acquired, sleeps, emitted) = drive(script, &config);
    assert_eq!(state, LoopState::AwaitingFrame);
    assert_eq!(acquired, 4);
    assert_eq!(sleeps, vec![15, 15, 15, 60]);
    assert_eq!(emitted, 1);
}

#[test]
fn not_ready_is_answered_by_the_short_wait() {
    let config = RunConfig::default();
    let (state, action) = step(LoopState::AwaitingFrame, LoopEvent::FrameNotReady, &config);
    assert_eq!(state, LoopState::BackingOff);
    assert!(matches!(action, LoopAction::Sleep(15)));
    let (state, action) = step(state, LoopEvent::Slept, &config);
    assert_eq!(state, LoopState::AwaitingFrame);
    assert!(matches!(action, LoopAction::Acquire));
}

#[test]
fn a_long_run_of_not_ready_never_halts() {
    let config = RunConfig::default();
    let script: Vec<Answer> = (0..500).map(|_| Answer::NotReady).collect();
    let (state, acquired, sleeps, emitted) = drive(script, &config);
    assert_eq!(state, LoopState::AwaitingFrame);
    assert_eq!(acquired, 500);
    assert_eq!(sleeps.len(), 500);
    assert!(sleeps.iter().all(|ms| *ms == 15));
    assert_eq!(emitted, 0);
}

#[test]
fn a_fatal_capture_error_ends_the_loop() {
    let config = RunConfig::default();
    let script = vec![Answer::Failed, Answer::Frame, Answer::Frame];
    let (state, acquired, sleeps, emitted) = drive(script, &config);
    assert_eq!(state, LoopState::Halted(HaltReason::CaptureFailed));
    assert_eq!(acquired, 1);
    assert!(sleeps.is_empty());
    assert_eq!(emitted, 0);
}

#[test]
fn a_fatal_error_after_some_frames_ends_the_loop() {
    let config = RunConfig::default();
    let script = vec![Answer::Frame, Answer::NotReady, Answer::Frame, Answer::Failed, Answer::Frame];
    let (state, acquired, sleeps, emitted) = drive(script, &config);
    assert_eq!(state, LoopState::Halted(HaltReason::CaptureFailed));
    assert_eq!(acquired, 4);
    assert_eq!(sleeps, vec![60, 15, 60]);
    assert_eq!(emitted, 2);
}

#[test]
fn a_halted_loop_stays_halted() {
    let config = RunConfig::default();
    for reason in [HaltReason::CaptureFailed, HaltReason::EmitFailed, HaltReason::OutOfTurn] {
        let events = vec![
            LoopEvent::FrameCaptured(gray_frame()),
            LoopEvent::FrameNotReady,
            LoopEvent::CaptureFailed,
            LoopEvent::Emitted,
            LoopEvent::EmitFailed,
            LoopEvent::Slept,
        ];
        let mut state = LoopState::Halted(reason);
        for event in events {
            let (next, action) = step(state, event, &config);
            assert_eq!(next, LoopState::Halted(reason));
            match action {
                LoopAction::Halt(r) => assert_eq!(r, reason),
                _ => panic!("a halted loop asked for more work"),
            }
            state = next;
        }
    }
}

#[test]
fn a_frame_is_answered_by_one_batch() {
    let config = RunConfig::default();
    let (state, action) = step(LoopState::AwaitingFrame, LoopEvent::FrameCaptured(gray_frame()), &config);
    assert_eq!(state, LoopState::AwaitingEmit);
    match action {
        LoopAction::Emit(batch) => {
            assert_eq!(batch.len(), 64);
            assert_eq!(batch[0].color, Color::new(147, 147, 147));
            assert_eq!((batch[0].position.col, batch[0].position.row), (7, 7));
        }
        _ => panic!("no batch for a frame"),
    }
    let (state, action) = step(state, LoopEvent::Emitted, &config);
    assert_eq!(state, LoopState::Pacing);
    assert!(matches!(action, LoopAction::Sleep(60)));
    let (state, action) = step(state, LoopEvent::Slept, &config);
    assert_eq!(state, LoopState::AwaitingFrame);
    assert!(matches!(action, LoopAction::Acquire));
}

#[test]
fn a_failed_emit_ends_the_loop() {
    let config = RunConfig::default();
    let (state, action) = step(LoopState::AwaitingEmit, LoopEvent::EmitFailed, &config);
    assert_eq!(state, LoopState::Halted(HaltReason::EmitFailed));
    assert!(matches!(action, LoopAction::Halt(HaltReason::EmitFailed)));
}

#[test]
fn events_out_of_turn_end_the_loop() {
    let config = RunConfig::default();
    let cases = vec![
        (LoopState::AwaitingFrame, LoopEvent::Slept),
        (LoopState::AwaitingFrame, LoopEvent::Emitted),
        (LoopState::AwaitingFrame, LoopEvent::EmitFailed),
        (LoopState::BackingOff, LoopEvent::FrameNotReady),
        (LoopState::BackingOff, LoopEvent::FrameCaptured(gray_frame())),
        (LoopState::BackingOff, LoopEvent::CaptureFailed),
        (LoopState::AwaitingEmit, LoopEvent::Slept),
        (LoopState::AwaitingEmit, LoopEvent::FrameCaptured(gray_frame())),
        (LoopState::Pacing, LoopEvent::Emitted),
        (LoopState::Pacing, LoopEvent::FrameNotReady),
    ];
    for (state, event) in cases {
        let (next, action) = step(state, event, &config);
        assert_eq!(next, LoopState::Halted(HaltReason::OutOfTurn));
        assert!(matches!(action, LoopAction::Halt(HaltReason::OutOfTurn)));
    }
}

#[test]
fn waits_come_from_the_settings() {
    let config = RunConfig::default().with_waits(3, 7);
    let (_, action) = step(LoopState::AwaitingFrame, LoopEvent::FrameNotReady, &config);
    assert!(matches!(action, LoopAction::Sleep(3)));
    let (_, action) = step(LoopState::AwaitingEmit, LoopEvent::Emitted, &config);
    assert!(matches!(action, LoopAction::Sleep(7)));
}

#[test]
fn halt_names_its_reason() {
    let (state, action) = halt(HaltReason::EmitFailed);
    assert_eq!(state, LoopState::Halted(HaltReason::EmitFailed));
    assert!(matches!(action, LoopAction::Halt(HaltReason::EmitFailed)));
}

use modular_agent_audio::capture::{mix_down, CaptureAction, CaptureEvent, CaptureLoop, Command};
use modular_agent_audio::error::AudioError;

fn quiet_stream() -> CaptureEvent<i32> {
    CaptureEvent::Stream { error: None, dropped: 0 }
}

/// Brings a loop that polls for commands to the point where it reads.
fn reading(capture: &mut CaptureLoop<i32>) -> usize {
    assert!(matches!(capture.step(CaptureEvent::Command(None)), CaptureAction::PollStream));
    match capture.step(quiet_stream()) {
        CaptureAction::ReadBlock(n) => n,
        _ => panic!("expected to read"),
    }
}

#[test]
fn a_loop_at_the_pipeline_rate_feeds_what_it_reads() {
    let mut capture: CaptureLoop<i32> = CaptureLoop::new(16_000, 2);
    assert_eq!(reading(&mut capture), 320);
    match capture.step(CaptureEvent::Block(Some(vec![1, 2, 3]))) {
        CaptureAction::Feed(samples) => assert_eq!(samples, vec![1, 2, 3]),
        _ => panic!("expected to feed"),
    }
    assert!(matches!(capture.step(CaptureEvent::Fed), CaptureAction::PollCommand));
    assert_eq!(reading(&mut capture), 320);
    match capture.step(CaptureEvent::Block(Some(vec![4]))) {
        CaptureAction::Feed(samples) => assert_eq!(samples, vec![4]),
        _ => panic!("expected to feed"),
    }
}

#[test]
fn a_loop_at_another_rate_resamples() {
    let mut capture: CaptureLoop<i32> = CaptureLoop::new(48_000, 1);
    assert_eq!(reading(&mut capture), 480);
    let block = CaptureEvent::Block(Some(vec![1, 2, 3, 4, 5]));
    assert!(matches!(capture.step(block), CaptureAction::AskResampler));
    match capture.step(CaptureEvent::FramesNeeded(2)) {
        CaptureAction::Resample(samples) => assert_eq!(samples, vec![1, 2]),
        _ => panic!("expected to resample"),
    }
    match capture.step(CaptureEvent::Resampled(Some(vec![10]))) {
        CaptureAction::Feed(samples) => assert_eq!(samples, vec![10]),
        _ => panic!("expected to feed"),
    }
    assert!(matches!(capture.step(CaptureEvent::Fed), CaptureAction::AskResampler));
    // Nothing comes of these two: the loop goes on.
    match capture.step(CaptureEvent::FramesNeeded(1)) {
        CaptureAction::Resample(samples) => assert_eq!(samples, vec![3]),
        _ => panic!("expected to resample"),
    }
    let empty = CaptureEvent::Resampled(Some(Vec::new()));
    assert!(matches!(capture.step(empty), CaptureAction::AskResampler));
    match capture.step(CaptureEvent::FramesNeeded(1)) {
        CaptureAction::Resample(samples) => assert_eq!(samples, vec![4]),
        _ => panic!("expected to resample"),
    }
    assert!(matches!(capture.step(CaptureEvent::Resampled(None)), CaptureAction::AskResampler));
    // One sample is left and waits for the next block.
    assert!(matches!(capture.step(CaptureEvent::FramesNeeded(2)), CaptureAction::PollCommand));
    reading(&mut capture);
    capture.step(CaptureEvent::Block(Some(vec![6])));
    match capture.step(CaptureEvent::FramesNeeded(2)) {
        CaptureAction::Resample(samples) => assert_eq!(samples, vec![5, 6]),
        _ => panic!("expected to resample"),
    }
}

#[test]
fn a_starved_loop_sleeps_a_little() {
    let mut capture: CaptureLoop<i32> = CaptureLoop::new(16_000, 1);
    reading(&mut capture);
    assert!(matches!(capture.step(CaptureEvent::Block(None)), CaptureAction::Sleep(5)));
    assert!(matches!(capture.step(CaptureEvent::Woke), CaptureAction::PollCommand));
}

#[test]
fn a_paused_loop_reads_nothing_until_it_is_resumed() {
    let mut capture: CaptureLoop<i32> = CaptureLoop::new(16_000, 1);
    let pause = CaptureEvent::Command(Some(Command::Pause));
    assert!(matches!(capture.step(pause), CaptureAction::PollCommand));
    for _ in 0..3 {
        assert!(matches!(capture.step(CaptureEvent::Command(None)), CaptureAction::PollStream));
        assert!(matches!(capture.step(quiet_stream()), CaptureAction::Sleep(50)));
        assert!(matches!(capture.step(CaptureEvent::Woke), CaptureAction::PollCommand));
    }
    let resume = CaptureEvent::Command(Some(Command::Resume));
    assert!(matches!(capture.step(resume), CaptureAction::PollStream));
    assert!(matches!(capture.step(quiet_stream()), CaptureAction::ReadBlock(160)));
}

#[test]
fn lost_samples_are_told_once() {
    let mut capture: CaptureLoop<i32> = CaptureLoop::new(16_000, 1);
    capture.step(CaptureEvent::Command(None));
    match capture.step(CaptureEvent::Stream { error: None, dropped: 7 }) {
        CaptureAction::Report(status) => assert_eq!(status, "overrun: input samples dropped"),
        _ => panic!("expected a report"),
    }
    assert!(matches!(capture.step(CaptureEvent::Reported), CaptureAction::ReadBlock(160)));
    capture.step(CaptureEvent::Block(None));
    capture.step(CaptureEvent::Woke);
    capture.step(CaptureEvent::Command(None));
    let again = CaptureEvent::Stream { error: None, dropped: 1 };
    assert!(matches!(capture.step(again), CaptureAction::ReadBlock(160)));
    capture.step(CaptureEvent::Block(None));
    capture.step(CaptureEvent::Woke);
    reading(&mut capture);
    capture.step(CaptureEvent::Block(None));
    capture.step(CaptureEvent::Woke);
    capture.step(CaptureEvent::Command(None));
    let later = CaptureEvent::Stream { error: None, dropped: 1 };
    assert!(matches!(capture.step(later), CaptureAction::Report(_)));
}

#[test]
fn a_broken_stream_fails_the_capture() {
    let mut capture: CaptureLoop<i32> = CaptureLoop::new(16_000, 1);
    capture.step(CaptureEvent::Command(None));
    let broken = CaptureEvent::Stream { error: Some("gone".to_string()), dropped: 3 };
    match capture.step(broken) {
        CaptureAction::Fail(AudioError::IoError(message)) => assert_eq!(message, "gone"),
        _ => panic!("expected a failure"),
    }
}

#[test]
fn a_capture_stops_when_told() {
    let mut capture: CaptureLoop<i32> = CaptureLoop::new(16_000, 1);
    let shutdown = CaptureEvent::Command(Some(Command::Shutdown));
    assert!(matches!(capture.step(shutdown), CaptureAction::Stop));
}

#[test]
fn frames_are_mixed_one_by_one() {
    let sum = |frame: &[i32]| -> i32 { frame.iter().sum() };
    assert_eq!(mix_down(&[1, 2, 3, 4, 5], 2, &sum), vec![3, 7, 5]);
    assert_eq!(mix_down(&[1, 2, 3, 4, 5, 6], 3, &sum), vec![6, 15]);
    assert_eq!(mix_down(&[1, 2, 3], 1, &sum), vec![1, 2, 3]);
    assert_eq!(mix_down(&[1, 2, 3], 0, &sum), vec![1, 2, 3]);
    assert!(mix_down(&[], 2, &sum).is_empty());
}

use modular_agent_audio::error::AudioError;
use modular_agent_audio::session_run::{SessionAction, SessionEvent, SessionRun};

/// Runs a session and gives the names of its actions, with what is told.
fn course(
    spawned: Result<(), String>,
    ready: Option<Result<(), AudioError>>,
    captured: Result<(), AudioError>,
) -> Vec<String> {
    let mut spawned = Some(spawned);
    let mut ready = Some(ready);
    let mut captured = Some(captured);
    let mut seen = Vec::new();
    let (mut session, mut action) = SessionRun::begin();
    loop {
        let event = match action {
            SessionAction::Tell(status) => {
                seen.push(status);
                SessionEvent::Told
            }
            SessionAction::SpawnWorker => {
                seen.push("spawn".to_string());
                SessionEvent::Spawned(spawned.take().unwrap())
            }
            SessionAction::AwaitWorker => SessionEvent::Ready(ready.take().unwrap()),
            SessionAction::Capture => {
                seen.push("capture".to_string());
                SessionEvent::Captured(captured.take().unwrap())
            }
            SessionAction::StopWorker => {
                seen.push("stop worker".to_string());
                SessionEvent::WorkerStopped
            }
            SessionAction::Stop => return seen,
        };
        let (next, todo) = session.step(event);
        session = next;
        action = todo;
    }
}

fn broken(message: &str) -> Result<(), AudioError> {
    Err(AudioError::IoError(message.to_string()))
}

#[test]
fn a_session_runs_from_start_to_stop() {
    assert_eq!(
        course(Ok(()), Some(Ok(())), Ok(())),
        ["recording_started", "spawn", "capture", "stop worker", "recording_stopped"]
    );
}

#[test]
fn a_broken_capture_is_told_last() {
    assert_eq!(
        course(Ok(()), Some(Ok(())), broken("gone")),
        ["recording_started", "spawn", "capture", "stop worker", "error: IO error: gone"]
    );
}

#[test]
fn a_failed_load_skips_the_capture() {
    assert_eq!(
        course(Ok(()), Some(broken("no model")), Ok(())),
        ["recording_started", "spawn", "stop worker", "error: IO error: no model"]
    );
    assert_eq!(
        course(Ok(()), None, Ok(())),
        [
            "recording_started",
            "spawn",
            "stop worker",
            "error: IO error: Inference worker exited before loading the model"
        ]
    );
}

#[test]
fn a_worker_that_does_not_start_ends_the_session() {
    assert_eq!(
        course(Err("no threads".to_string()), None, Ok(())),
        [
            "recording_started",
            "spawn",
            "error: failed to spawn inference thread: no threads"
        ]
    );
}

//! The course of a session: the worker is started, loads its model, audio is
//! captured, the worker is stopped. What is told of it, and in which order, is
//! decided here; the steps themselves are taken by the caller.

use crate::error::{error_text, AudioError};
use crate::session::{final_status, spawn_failure_status, started_status, worker_ready};
use vstd::prelude::*;

verus! {

/// What happened when the last action was carried out.
pub enum SessionEvent {
    /// The status was told.
    Told,
    /// Whether the worker was started, or why not.
    Spawned(Result<(), String>),
    /// What the worker says of its model, or nothing when it was gone before
    /// saying anything.
    Ready(Option<Result<(), AudioError>>),
    /// How the capture ended.
    Captured(Result<(), AudioError>),
    /// The worker is gone.
    WorkerStopped,
}

/// What to do next.
pub enum SessionAction {
    /// Tell a status.
    Tell(String),
    /// Start the worker.
    SpawnWorker,
    /// Wait for what the worker says of its model.
    AwaitWorker,
    /// Capture audio.
    Capture,
    /// Stop the worker and wait for its end.
    StopWorker,
    /// The session is over.
    Stop,
}

/// What to do next, as a value.
#[verifier::ext_equal]
pub enum SessionActionModel {
    Tell(Seq<char>),
    SpawnWorker,
    AwaitWorker,
    Capture,
    StopWorker,
    Stop,
}

impl View for SessionAction {
    type V = SessionActionModel;

    open spec fn view(&self) -> SessionActionModel {
        match self {
            SessionAction::Tell(status) => SessionActionModel::Tell(status@),
            SessionAction::SpawnWorker => SessionActionModel::SpawnWorker,
            SessionAction::AwaitWorker => SessionActionModel::AwaitWorker,
            SessionAction::Capture => SessionActionModel::Capture,
            SessionAction::StopWorker => SessionActionModel::StopWorker,
            SessionAction::Stop => SessionActionModel::Stop,
        }
    }
}

/// What is told last of a session that came to this end.
pub open spec fn closing_status(outcome: Result<(), AudioError>) -> Seq<char> {
    match outcome {
        Ok(()) => "recording_stopped"@,
        Err(e) => "error: "@ + error_text(e),
    }
}

/// What is told last of a session whose worker could not be started.
pub open spec fn no_worker_status(cause: Seq<char>) -> Seq<char> {
    "error: failed to spawn inference thread: "@ + cause
}

/// What is told last of a session whose worker did not get its model loaded.
pub open spec fn not_ready_status(said: Option<Result<(), AudioError>>) -> Seq<char> {
    match said {
        Some(answer) => closing_status(answer),
        None => "error: "@ + ("IO error: "@ + "Inference worker exited before loading the model"@),
    }
}

/// Whether the worker has its model.
pub open spec fn is_ready(said: Option<Result<(), AudioError>>) -> bool {
    said matches Some(Ok(_))
}

/// The state of a session.
#[verifier::ext_equal]
pub enum SessionModel {
    /// Telling that the recording has started.
    Starting,
    Spawning,
    /// Waiting for the worker to load its model.
    Loading,
    Capturing,
    /// Stopping the worker; the text is what will be told last.
    Stopping(Seq<char>),
    /// Telling the last status.
    Ending,
    Done,
}

impl SessionModel {
    /// Whether an event is one that the session is waiting for.
    pub open spec fn expects(self, event: SessionEvent) -> bool {
        match event {
            SessionEvent::Told => self is Starting || self is Ending,
            SessionEvent::Spawned(_) => self is Spawning,
            SessionEvent::Ready(_) => self is Loading,
            SessionEvent::Captured(_) => self is Capturing,
            SessionEvent::WorkerStopped => self is Stopping,
        }
    }

    /// The state and the action that follow an event.
    pub open spec fn next(self, event: SessionEvent) -> (SessionModel, SessionActionModel) {
        match event {
            SessionEvent::Told => if self is Starting {
                (SessionModel::Spawning, SessionActionModel::SpawnWorker)
            } else {
                (SessionModel::Done, SessionActionModel::Stop)
            },
            SessionEvent::Spawned(Ok(())) => (
                SessionModel::Loading,
                SessionActionModel::AwaitWorker,
            ),
            SessionEvent::Spawned(Err(cause)) => (
                SessionModel::Ending,
                SessionActionModel::Tell(no_worker_status(cause@)),
            ),
            SessionEvent::Ready(said) => if is_ready(said) {
                (SessionModel::Capturing, SessionActionModel::Capture)
            } else {
                (SessionModel::Stopping(not_ready_status(said)), SessionActionModel::StopWorker)
            },
            SessionEvent::Captured(outcome) => (
                SessionModel::Stopping(closing_status(outcome)),
                SessionActionModel::StopWorker,
            ),
            SessionEvent::WorkerStopped => (
                SessionModel::Ending,
                SessionActionModel::Tell(self->Stopping_0),
            ),
        }
    }

    /// How a session begins.
    pub open spec fn beginning() -> (SessionModel, SessionActionModel) {
        (SessionModel::Starting, SessionActionModel::Tell("recording_started"@))
    }
}

/// A running session.
pub enum SessionRun {
    Starting,
    Spawning,
    Loading,
    Capturing,
    Stopping(Result<(), AudioError>),
    Ending,
    Done,
}

impl View for SessionRun {
    type V = SessionModel;

    open spec fn view(&self) -> SessionModel {
        match self {
            SessionRun::Starting => SessionModel::Starting,
            SessionRun::Spawning => SessionModel::Spawning,
            SessionRun::Loading => SessionModel::Loading,
            SessionRun::Capturing => SessionModel::Capturing,
            SessionRun::Stopping(outcome) => SessionModel::Stopping(closing_status(*outcome)),
            SessionRun::Ending => SessionModel::Ending,
            SessionRun::Done => SessionModel::Done,
        }
    }
}

impl SessionRun {
    /// Begins a session and says what to do first.
    pub fn begin() -> (r: (SessionRun, SessionAction))
        ensures
            (r.0@, r.1@) == SessionModel::beginning(),
    {
        (SessionRun::Starting, SessionAction::Tell(started_status().to_owned()))
    }

    /// Takes note of what happened and gives the session's next state and what
    /// to do next.
    pub fn step(self, event: SessionEvent) -> (r: (SessionRun, SessionAction))
        requires
            self@.expects(event),
        ensures
            (r.0@, r.1@) == self@.next(event),
    {
        match event {
            SessionEvent::Told => match self {
                SessionRun::Starting => (SessionRun::Spawning, SessionAction::SpawnWorker),
                _ => (SessionRun::Done, SessionAction::Stop),
            },
            SessionEvent::Spawned(Ok(())) => (SessionRun::Loading, SessionAction::AwaitWorker),
            SessionEvent::Spawned(Err(cause)) => (
                SessionRun::Ending,
                SessionAction::Tell(spawn_failure_status(cause.as_str())),
            ),
            SessionEvent::Ready(said) => match worker_ready(said) {
                Ok(()) => (SessionRun::Capturing, SessionAction::Capture),
                Err(e) => (SessionRun::Stopping(Err(e)), SessionAction::StopWorker),
            },
            SessionEvent::Captured(outcome) => (
                SessionRun::Stopping(outcome),
                SessionAction::StopWorker,
            ),
            SessionEvent::WorkerStopped => match self {
                SessionRun::Stopping(outcome) => (
                    SessionRun::Ending,
                    SessionAction::Tell(final_status(&outcome)),
                ),
                _ => (SessionRun::Done, SessionAction::Stop),
            },
        }
    }
}

/// The session and its last action after a run of events.
pub open spec fn after_all(events: Seq<SessionEvent>) -> (SessionModel, SessionActionModel)
    decreases events.len(),
{
    if events.len() == 0 {
        SessionModel::beginning()
    } else {
        after_all(events.drop_last()).0.next(events.last())
    }
}

/// Whether each event is one that the session was waiting for.
pub open spec fn in_turn(events: Seq<SessionEvent>) -> bool
    decreases events.len(),
{
    if events.len() == 0 {
        true
    } else {
        &&& in_turn(events.drop_last())
        &&& after_all(events.drop_last()).0.expects(events.last())
    }
}

/// What is told in a run of events, in order.
pub open spec fn told(events: Seq<SessionEvent>) -> Seq<Seq<char>>
    decreases events.len(),
{
    let earlier = if events.len() == 0 {
        Seq::empty()
    } else {
        told(events.drop_last())
    };
    match after_all(events).1 {
        SessionActionModel::Tell(status) => earlier.push(status),
        _ => earlier,
    }
}

/// What a run of events leaves to be told last, once that is decided: that the
/// worker could not be started, that it has no model, or how the capture ended.
pub open spec fn verdict(events: Seq<SessionEvent>) -> Option<Seq<char>>
    decreases events.len(),
{
    if events.len() == 0 {
        None
    } else {
        match events.last() {
            SessionEvent::Spawned(Err(cause)) => Some(no_worker_status(cause@)),
            SessionEvent::Ready(said) => if is_ready(said) {
                None
            } else {
                Some(not_ready_status(said))
            },
            SessionEvent::Captured(outcome) => Some(closing_status(outcome)),
            _ => verdict(events.drop_last()),
        }
    }
}

/// What is told last: that the recording has stopped, or why it failed, as the
/// framework shows errors; of a worker that was gone before it said anything,
/// that; and of one that could not be started, why.
pub proof fn endings_are_told_in_full(
    outcome: Result<(), AudioError>,
    said: Option<Result<(), AudioError>>,
    cause: Seq<char>,
)
    ensures
        match outcome {
            Ok(()) => closing_status(outcome) == "recording_stopped"@,
            Err(e) => closing_status(outcome) == "error: "@ + error_text(e),
        },
        match said {
            Some(Ok(())) => is_ready(said),
            Some(Err(e)) => !is_ready(said) && not_ready_status(said) == "error: "@ + error_text(e),
            None => !is_ready(said) && not_ready_status(said) == "error: "@ + ("IO error: "@
                + "Inference worker exited before loading the model"@),
        },
        no_worker_status(cause) == "error: failed to spawn inference thread: "@ + cause,
{
}

/// Each step follows from the one before: what was told, the worker is started;
/// started, it is waited for; ready, audio is captured, and the worker is stopped
/// however that ends. A worker that did not start is the end.
pub proof fn a_session_takes_its_steps_in_order(
    cause: String,
    said: Option<Result<(), AudioError>>,
    outcome: Result<(), AudioError>,
)
    ensures
        ({
            let spawning = SessionModel::beginning().0.next(SessionEvent::Told);
            let loading = spawning.0.next(SessionEvent::Spawned(Ok(())));
            let stillborn = spawning.0.next(SessionEvent::Spawned(Err(cause)));
            let loaded = loading.0.next(SessionEvent::Ready(said));
            let captured = loaded.0.next(SessionEvent::Captured(outcome));
            let stopped = captured.0.next(SessionEvent::WorkerStopped);
            let unloaded = loaded.0.next(SessionEvent::WorkerStopped);
            &&& SessionModel::beginning().1 == SessionActionModel::Tell("recording_started"@)
            &&& spawning.1 is SpawnWorker
            &&& loading.1 is AwaitWorker
            &&& stillborn.1 == SessionActionModel::Tell(
                "error: failed to spawn inference thread: "@ + cause@,
            )
            &&& stillborn.0.next(SessionEvent::Told).1 is Stop
            &&& said matches Some(Ok(())) ==> {
                &&& loaded.1 is Capture
                &&& captured.1 is StopWorker
                &&& stopped.1 is Tell
                &&& outcome matches Ok(()) ==> stopped.1 == SessionActionModel::Tell(
                    "recording_stopped"@,
                )
                &&& outcome matches Err(e) ==> stopped.1 == SessionActionModel::Tell(
                    "error: "@ + error_text(e),
                )
                &&& stopped.0.next(SessionEvent::Told).1 is Stop
            }
            &&& said matches Some(Err(e)) ==> {
                &&& loaded.1 is StopWorker
                &&& unloaded.1 == SessionActionModel::Tell("error: "@ + error_text(e))
                &&& unloaded.0.next(SessionEvent::Told).1 is Stop
            }
            &&& said is None ==> loaded.1 is StopWorker && unloaded.1 is Tell
        }),
{
}

/// The first that is told is that the recording has started. A session that is
/// over has told one thing more, and that is how it went.
pub proof fn a_session_is_told_from_start_to_end(events: Seq<SessionEvent>)
    requires
        in_turn(events),
    ensures
        told(events).len() >= 1,
        told(events)[0] == "recording_started"@,
        after_all(events).0 is Done ==> {
            &&& verdict(events) is Some
            &&& told(events) == seq!["recording_started"@, verdict(events)->0]
        },
{
    lemma_told(events);
    if after_all(events).0 is Done {
        assert(told(events) =~= seq!["recording_started"@, verdict(events)->0]);
    }
}

/// What was told in each state.
proof fn lemma_told(events: Seq<SessionEvent>)
    requires
        in_turn(events),
    ensures
        ({
            let t = told(events);
            &&& t.len() >= 1
            &&& t[0] == "recording_started"@
            &&& match after_all(events).0 {
                SessionModel::Stopping(status) => t.len() == 1 && verdict(events) == Some(status),
                SessionModel::Ending => t.len() == 2 && verdict(events) == Some(t[1]),
                SessionModel::Done => t.len() == 2 && verdict(events) == Some(t[1]),
                _ => t.len() == 1 && verdict(events) is None,
            }
        }),
    decreases events.len(),
{
    if events.len() > 0 {
        lemma_told(events.drop_last());
    }
}

/// Audio is captured only right after the worker has said that its model is
/// loaded. A failed load is never followed by a capture: the worker is stopped,
/// the failure is told, and that is the end.
pub proof fn a_failed_load_skips_the_capture(events: Seq<SessionEvent>, n: int)
    requires
        in_turn(events),
        0 <= n < events.len(),
    ensures
        after_all(events).1 is Capture ==> (events.last() matches SessionEvent::Ready(said)
            && is_ready(said)),
        (events[n] matches SessionEvent::Ready(said) && !is_ready(said)) ==> {
            &&& after_all(events).0 is Stopping || after_all(events).0 is Ending || after_all(
                events,
            ).0 is Done
            &&& !(after_all(events).1 is Capture)
        },
    decreases events.len(),
{
    let earlier = events.drop_last();
    if n < events.len() - 1 {
        assert(earlier[n] == events[n]);
        a_failed_load_skips_the_capture(earlier, n);
    }
}

/// Once the worker was started, it is stopped before anything more is told.
pub proof fn the_worker_is_stopped_before_the_end(events: Seq<SessionEvent>, n: int)
    requires
        in_turn(events),
        0 <= n < events.len(),
        events[n] matches SessionEvent::Spawned(Ok(())),
        after_all(events).1 is Tell,
    ensures
        events.last() is WorkerStopped,
{
    lemma_started_worker(events, n);
}

/// A session whose worker was started is waiting for it, capturing, stopping it,
/// or past that.
proof fn lemma_started_worker(events: Seq<SessionEvent>, n: int)
    requires
        in_turn(events),
        0 <= n < events.len(),
        events[n] matches SessionEvent::Spawned(Ok(())),
    ensures
        !(after_all(events).0 is Starting),
        !(after_all(events).0 is Spawning),
        after_all(events).1 is Tell ==> events.last() is WorkerStopped,
    decreases events.len(),
{
    let earlier = events.drop_last();
    if n < events.len() - 1 {
        assert(earlier[n] == events[n]);
        lemma_started_worker(earlier, n);
    }
}

/// The session always waits for the event that its last action brings about,
/// whatever that turns out to be.
pub proof fn actions_bring_the_expected_events(session: SessionModel, event: SessionEvent)
    requires
        session.expects(event),
    ensures
        match session.next(event).1 {
            SessionActionModel::Tell(_) => session.next(event).0 is Ending,
            SessionActionModel::SpawnWorker => session.next(event).0 is Spawning,
            SessionActionModel::AwaitWorker => session.next(event).0 is Loading,
            SessionActionModel::Capture => session.next(event).0 is Capturing,
            SessionActionModel::StopWorker => session.next(event).0 is Stopping,
            SessionActionModel::Stop => session.next(event).0 is Done,
        },
        match session.next(event).1 {
            SessionActionModel::Tell(_) => session.next(event).0.expects(SessionEvent::Told),
            SessionActionModel::SpawnWorker => forall|spawned: Result<(), String>|
                #[trigger] session.next(event).0.expects(SessionEvent::Spawned(spawned)),
            SessionActionModel::AwaitWorker => forall|said: Option<Result<(), AudioError>>|
                #[trigger] session.next(event).0.expects(SessionEvent::Ready(said)),
            SessionActionModel::Capture => forall|outcome: Result<(), AudioError>|
                #[trigger] session.next(event).0.expects(SessionEvent::Captured(outcome)),
            SessionActionModel::StopWorker => session.next(event).0.expects(
                SessionEvent::WorkerStopped,
            ),
            SessionActionModel::Stop => true,
        },
{
}

} // verus!

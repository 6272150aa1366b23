//! The inference worker as a state machine, and how many threads it gets.

use crate::error::AudioError;
use crate::pipeline::{InferJob, JobModel};
use vstd::prelude::*;

verus! {

/// Half of the logical cores, at least 2 and at most 8: this leaves room for
/// the audio path and the rest of the application. An unknown number of cores
/// counts as four.
pub fn infer_threads(parallelism: Option<usize>) -> (r: i32)
    ensures
        2 <= r <= 8,
        match parallelism {
            Some(cores) => {
                &&& cores < 4 ==> r == 2
                &&& 4 <= cores <= 16 ==> r == cores as int / 2
                &&& cores > 16 ==> r == 8
            },
            None => r == 2,
        },
{
    let half: usize = match parallelism {
        Some(cores) => cores / 2,
        None => 2,
    };
    if half < 2 {
        2
    } else if half > 8 {
        8
    } else {
        half as i32
    }
}

/// Where a transcribed text goes.
#[derive(Clone, Copy, Debug, PartialEq, Eq, Structural)]
pub enum Port {
    /// Whole utterances.
    Text,
    /// The utterance in progress.
    Partial,
}

impl Port {
    /// The name of the port.
    pub open spec fn spelled(self) -> Seq<char> {
        match self {
            Port::Text => "text"@,
            Port::Partial => "partial"@,
        }
    }

    /// The name of the port.
    pub fn name(self) -> (r: &'static str)
        ensures
            r@ == self.spelled(),
            self == Port::Text ==> r@ == "text"@,
            self == Port::Partial ==> r@ == "partial"@,
    {
        match self {
            Port::Text => "text",
            Port::Partial => "partial",
        }
    }
}

/// What happened when the last action was carried out.
pub enum WorkerEvent<S> {
    /// What came of loading the model.
    Loaded(Result<(), AudioError>),
    /// What came of it was announced.
    Announced,
    /// The job that was waited for, or nothing when no more will come; and
    /// whether the worker is to stop.
    Received { job: Option<InferJob<S>>, stopping: bool },
    /// The job that was already waiting, if any.
    Next(Option<InferJob<S>>),
    /// The text of a transcription, or nothing when it failed.
    Transcribed(Option<String>),
    /// The text was sent.
    Emitted,
}

/// What to do next.
pub enum WorkerAction<S> {
    /// Load the model.
    Load,
    /// Announce what came of loading the model.
    Announce(Result<(), AudioError>),
    /// Wait for a job.
    Receive,
    /// Look for a job, without waiting.
    TryReceive,
    /// Transcribe these.
    Transcribe(Vec<S>),
    /// Send a text to a port.
    Emit(Port, String),
    /// The worker is done.
    Stop,
}

/// What to do next, as a value.
#[verifier::ext_equal]
pub enum WorkerActionModel<S> {
    Load,
    Announce(Result<(), AudioError>),
    Receive,
    TryReceive,
    Transcribe(Seq<S>),
    Emit(Port, Seq<char>),
    Stop,
}

impl<S> View for WorkerAction<S> {
    type V = WorkerActionModel<S>;

    open spec fn view(&self) -> WorkerActionModel<S> {
        match self {
            WorkerAction::Load => WorkerActionModel::Load,
            WorkerAction::Announce(loaded) => WorkerActionModel::Announce(*loaded),
            WorkerAction::Receive => WorkerActionModel::Receive,
            WorkerAction::TryReceive => WorkerActionModel::TryReceive,
            WorkerAction::Transcribe(samples) => WorkerActionModel::Transcribe(samples@),
            WorkerAction::Emit(port, text) => WorkerActionModel::Emit(*port, text@),
            WorkerAction::Stop => WorkerActionModel::Stop,
        }
    }
}

/// The state of an inference worker.
#[verifier::ext_equal]
pub enum WorkerModel<S> {
    /// Loading the model.
    Loading,
    /// Announcing whether the model is loaded.
    Announcing(bool),
    /// Waiting for a job.
    Idle,
    /// Holding a partial job and looking for a newer one.
    Skimming(Seq<S>),
    /// Transcribing for a port.
    Transcribing(Port),
    /// Sending a text.
    Emitting,
    Done,
}

impl<S> WorkerModel<S> {
    /// Whether an event is one that the worker is waiting for.
    pub open spec fn expects(self, event: WorkerEvent<S>) -> bool {
        match event {
            WorkerEvent::Loaded(_) => self is Loading,
            WorkerEvent::Announced => self is Announcing,
            WorkerEvent::Received { .. } => self is Idle,
            WorkerEvent::Next(_) => self is Skimming,
            WorkerEvent::Transcribed(_) => self is Transcribing,
            WorkerEvent::Emitted => self is Emitting,
        }
    }

    /// A whole utterance is transcribed at once. A partial one is only worth
    /// transcribing while nothing newer waits behind it.
    pub open spec fn taking(job: JobModel<S>) -> (WorkerModel<S>, WorkerActionModel<S>) {
        match job {
            JobModel::Final(samples) => (
                WorkerModel::Transcribing(Port::Text),
                WorkerActionModel::Transcribe(samples),
            ),
            JobModel::Partial(samples) => (
                WorkerModel::Skimming(samples),
                WorkerActionModel::TryReceive,
            ),
        }
    }

    /// The state and the action that follow an event.
    pub open spec fn next(self, event: WorkerEvent<S>) -> (WorkerModel<S>, WorkerActionModel<S>) {
        match event {
            WorkerEvent::Loaded(loaded) => (
                WorkerModel::Announcing(loaded is Ok),
                WorkerActionModel::Announce(loaded),
            ),
            WorkerEvent::Announced => if self->Announcing_0 {
                (WorkerModel::Idle, WorkerActionModel::Receive)
            } else {
                (WorkerModel::Done, WorkerActionModel::Stop)
            },
            WorkerEvent::Received { job, stopping } => match job {
                Some(j) => if stopping {
                    (WorkerModel::Done, WorkerActionModel::Stop)
                } else {
                    WorkerModel::taking(j@)
                },
                None => (WorkerModel::Done, WorkerActionModel::Stop),
            },
            WorkerEvent::Next(Some(job)) => WorkerModel::taking(job@),
            WorkerEvent::Next(None) => (
                WorkerModel::Transcribing(Port::Partial),
                WorkerActionModel::Transcribe(self->Skimming_0),
            ),
            WorkerEvent::Transcribed(Some(text)) => if text@.len() > 0 {
                (
                    WorkerModel::Emitting,
                    WorkerActionModel::Emit(self->Transcribing_0, text@),
                )
            } else {
                (WorkerModel::Idle, WorkerActionModel::Receive)
            },
            WorkerEvent::Transcribed(None) => (WorkerModel::Idle, WorkerActionModel::Receive),
            WorkerEvent::Emitted => (WorkerModel::Idle, WorkerActionModel::Receive),
        }
    }
}

/// An inference worker. It begins with `WorkerAction::Load`.
pub enum InferWorker<S> {
    Loading,
    Announcing(bool),
    Idle,
    Skimming(Vec<S>),
    Transcribing(Port),
    Emitting,
    Done,
}

impl<S> View for InferWorker<S> {
    type V = WorkerModel<S>;

    open spec fn view(&self) -> WorkerModel<S> {
        match self {
            InferWorker::Loading => WorkerModel::Loading,
            InferWorker::Announcing(loaded) => WorkerModel::Announcing(*loaded),
            InferWorker::Idle => WorkerModel::Idle,
            InferWorker::Skimming(samples) => WorkerModel::Skimming(samples@),
            InferWorker::Transcribing(port) => WorkerModel::Transcribing(*port),
            InferWorker::Emitting => WorkerModel::Emitting,
            InferWorker::Done => WorkerModel::Done,
        }
    }
}

impl<S> InferWorker<S> {
    /// A worker that has yet to load its model.
    pub fn new() -> (r: Self)
        ensures
            r@ == WorkerModel::<S>::Loading,
    {
        InferWorker::Loading
    }

    /// Takes a job.
    fn take(job: InferJob<S>) -> (r: (InferWorker<S>, WorkerAction<S>))
        ensures
            (r.0@, r.1@) == WorkerModel::taking(job@),
    {
        match job {
            InferJob::Final(samples) => (
                InferWorker::Transcribing(Port::Text),
                WorkerAction::Transcribe(samples),
            ),
            InferJob::Partial(samples) => (
                InferWorker::Skimming(samples),
                WorkerAction::TryReceive,
            ),
        }
    }

    /// Takes note of what happened and gives the worker's next state and what
    /// to do next.
    pub fn step(self, event: WorkerEvent<S>) -> (r: (InferWorker<S>, WorkerAction<S>))
        requires
            self@.expects(event),
        ensures
            (r.0@, r.1@) == self@.next(event),
    {
        match event {
            WorkerEvent::Loaded(loaded) => (
                InferWorker::Announcing(loaded.is_ok()),
                WorkerAction::Announce(loaded),
            ),
            WorkerEvent::Announced => match self {
                InferWorker::Announcing(true) => (InferWorker::Idle, WorkerAction::Receive),
                _ => (InferWorker::Done, WorkerAction::Stop),
            },
            WorkerEvent::Received { job, stopping } => match job {
                Some(j) => if stopping {
                    (InferWorker::Done, WorkerAction::Stop)
                } else {
                    Self::take(j)
                },
                None => (InferWorker::Done, WorkerAction::Stop),
            },
            WorkerEvent::Next(Some(job)) => Self::take(job),
            WorkerEvent::Next(None) => match self {
                InferWorker::Skimming(samples) => (
                    InferWorker::Transcribing(Port::Partial),
                    WorkerAction::Transcribe(samples),
                ),
                _ => (InferWorker::Done, WorkerAction::Stop),
            },
            WorkerEvent::Transcribed(Some(text)) => match self {
                InferWorker::Transcribing(port) => if text.as_str().is_empty() {
                    (InferWorker::Idle, WorkerAction::Receive)
                } else {
                    (InferWorker::Emitting, WorkerAction::Emit(port, text))
                },
                _ => (InferWorker::Done, WorkerAction::Stop),
            },
            WorkerEvent::Transcribed(None) => (InferWorker::Idle, WorkerAction::Receive),
            WorkerEvent::Emitted => (InferWorker::Idle, WorkerAction::Receive),
        }
    }
}

/// The job that is transcribed when `job` comes in and `waiting` is what the
/// queue holds: the first whole utterance, or the newest partial one where
/// there is none.
pub open spec fn chosen<S>(job: JobModel<S>, waiting: Seq<JobModel<S>>) -> JobModel<S>
    decreases waiting.len(),
{
    if job is Final || waiting.len() == 0 {
        job
    } else {
        chosen(waiting[0], waiting.subrange(1, waiting.len() as int))
    }
}

/// How many of the waiting jobs are taken off the queue on the way.
pub open spec fn passed_over<S>(job: JobModel<S>, waiting: Seq<JobModel<S>>) -> int
    decreases waiting.len(),
{
    if job is Final || waiting.len() == 0 {
        0
    } else {
        1 + passed_over(waiting[0], waiting.subrange(1, waiting.len() as int))
    }
}

/// The worker and its last action once it has taken a job and looked through
/// the jobs that wait, up to the end of the queue.
pub open spec fn skimmed<S>(
    worker: (WorkerModel<S>, WorkerActionModel<S>),
    waiting: Seq<JobModel<S>>,
) -> (WorkerModel<S>, WorkerActionModel<S>)
    decreases waiting.len(),
{
    match worker.1 {
        WorkerActionModel::TryReceive => if waiting.len() == 0 {
            worker.0.next(WorkerEvent::Next(None))
        } else {
            skimmed(WorkerModel::taking(waiting[0]), waiting.subrange(1, waiting.len() as int))
        },
        _ => worker,
    }
}

/// Stale partial jobs are skipped: what the worker transcribes, and for which
/// port, is the chosen job.
pub proof fn stale_partials_are_skipped<S>(job: JobModel<S>, waiting: Seq<JobModel<S>>)
    ensures
        skimmed(WorkerModel::taking(job), waiting) == (match chosen(job, waiting) {
            JobModel::Final(samples) => (
                WorkerModel::<S>::Transcribing(Port::Text),
                WorkerActionModel::<S>::Transcribe(samples),
            ),
            JobModel::Partial(samples) => (
                WorkerModel::<S>::Transcribing(Port::Partial),
                WorkerActionModel::<S>::Transcribe(samples),
            ),
        }),
    decreases waiting.len(),
{
    if !(job is Final) && waiting.len() > 0 {
        stale_partials_are_skipped(waiting[0], waiting.subrange(1, waiting.len() as int));
    }
}

/// No whole utterance is lost by skipping: every job that is passed over before
/// the chosen one is partial, and a whole utterance that is waiting stops the
/// search.
pub proof fn no_final_is_skipped<S>(job: JobModel<S>, waiting: Seq<JobModel<S>>)
    ensures
        ({
            let n = passed_over(job, waiting);
            let all = seq![job] + waiting;
            &&& 0 <= n <= waiting.len()
            &&& chosen(job, waiting) == all[n]
            &&& forall|i: int| 0 <= i < n ==> (#[trigger] all[i]) is Partial
            &&& all[n] is Final || n == waiting.len()
        }),
    decreases waiting.len(),
{
    let all = seq![job] + waiting;
    if !(job is Final) && waiting.len() > 0 {
        let rest = waiting.subrange(1, waiting.len() as int);
        no_final_is_skipped(waiting[0], rest);
        let later = seq![waiting[0]] + rest;
        assert forall|i: int| 0 <= i < waiting.len() implies later[i] == all[i + 1] by {}
        let n = passed_over(job, waiting);
        assert forall|i: int| 0 <= i < n implies (#[trigger] all[i]) is Partial by {
            if i > 0 {
                assert(later[i - 1] is Partial);
            }
        }
        assert(all[n] == later[n - 1]);
    }
}

/// The worker after a run of events.
pub open spec fn after_all<S>(start: WorkerModel<S>, events: Seq<WorkerEvent<S>>) -> WorkerModel<S>
    decreases events.len(),
{
    if events.len() == 0 {
        start
    } else {
        after_all(start, events.drop_last()).next(events.last()).0
    }
}

/// Whether each event is one that the worker was waiting for.
pub open spec fn in_turn<S>(start: WorkerModel<S>, events: Seq<WorkerEvent<S>>) -> bool
    decreases events.len(),
{
    if events.len() == 0 {
        true
    } else {
        &&& in_turn(start, events.drop_last())
        &&& after_all(start, events.drop_last()).expects(events.last())
    }
}

/// The whole utterance that an event brings, if any.
pub open spec fn utterance_in<S>(event: WorkerEvent<S>) -> Option<Seq<S>> {
    match event {
        WorkerEvent::Received { job: Some(InferJob::Final(samples)), stopping: _ } => Some(
            samples@,
        ),
        WorkerEvent::Next(Some(InferJob::Final(samples))) => Some(samples@),
        _ => None,
    }
}

/// The whole utterances that a run of events brings, in order.
pub open spec fn utterances_in<S>(events: Seq<WorkerEvent<S>>) -> Seq<Seq<S>>
    decreases events.len(),
{
    if events.len() == 0 {
        Seq::empty()
    } else {
        match utterance_in(events.last()) {
            Some(samples) => utterances_in(events.drop_last()).push(samples),
            None => utterances_in(events.drop_last()),
        }
    }
}

/// What is transcribed for a port in a run of events, in order.
pub open spec fn transcribed_for<S>(
    port: Port,
    start: WorkerModel<S>,
    events: Seq<WorkerEvent<S>>,
) -> Seq<Seq<S>>
    decreases events.len(),
{
    if events.len() == 0 {
        Seq::empty()
    } else {
        let earlier = transcribed_for(port, start, events.drop_last());
        let (worker, action) = after_all(start, events.drop_last()).next(events.last());
        match action {
            WorkerActionModel::Transcribe(samples) => if worker == WorkerModel::<S>::Transcribing(
                port,
            ) {
                earlier.push(samples)
            } else {
                earlier
            },
            _ => earlier,
        }
    }
}

/// As long as the worker is not told to stop, what it transcribes for the port
/// of whole utterances is the whole utterances it gets, in order, each once and
/// as it came.
pub proof fn every_utterance_is_transcribed_once<S>(
    start: WorkerModel<S>,
    events: Seq<WorkerEvent<S>>,
)
    requires
        in_turn(start, events),
        forall|i: int|
            0 <= i < events.len() ==> !(#[trigger] events[i] matches WorkerEvent::Received {
                stopping: true,
                ..
            }),
    ensures
        transcribed_for(Port::Text, start, events) == utterances_in(events),
    decreases events.len(),
{
    if events.len() > 0 {
        let earlier = events.drop_last();
        assert forall|i: int| 0 <= i < earlier.len() implies !(
        #[trigger] earlier[i] matches WorkerEvent::Received { stopping: true, .. }) by {
            assert(earlier[i] == events[i]);
        }
        every_utterance_is_transcribed_once(start, earlier);
        assert(events.last() == events[events.len() - 1]);
    }
}

/// What came of loading the model is announced before any job is taken. After a
/// failure the worker stops; it waits for jobs only with its model loaded.
pub proof fn loading_is_announced_first<S>(loaded: Result<(), AudioError>)
    ensures
        ({
            let first = WorkerModel::<S>::Loading.next(WorkerEvent::Loaded(loaded));
            let second = first.0.next(WorkerEvent::Announced);
            &&& first.1 == WorkerActionModel::<S>::Announce(loaded)
            &&& loaded is Ok ==> second == (
                WorkerModel::<S>::Idle,
                WorkerActionModel::<S>::Receive,
            )
            &&& loaded is Err ==> second == (WorkerModel::<S>::Done, WorkerActionModel::<S>::Stop)
        }),
{
}

/// The text of a transcription goes, just as it is, to the port that the
/// transcription was made for. An empty one and a failure go nowhere; either
/// way the worker waits for its next job.
pub proof fn a_text_goes_to_its_port<S>(port: Port, text: String)
    ensures
        ({
            let worker = WorkerModel::<S>::Transcribing(port);
            let (sent, action) = worker.next(WorkerEvent::Transcribed(Some(text)));
            let failed = worker.next(WorkerEvent::Transcribed(None));
            let idle = (WorkerModel::<S>::Idle, WorkerActionModel::<S>::Receive);
            &&& text@.len() > 0 ==> action == WorkerActionModel::<S>::Emit(port, text@)
                && sent.next(WorkerEvent::Emitted) == idle
            &&& text@.len() == 0 ==> (sent, action) == idle
            &&& failed == idle
        }),
{
}

/// A worker stops when it is told to, whatever job comes with it, and when no
/// more jobs will come; it takes any other job.
pub proof fn a_worker_stops_only_when_told_or_alone<S>(job: InferJob<S>)
    ensures
        WorkerModel::<S>::Idle.next(WorkerEvent::Received { job: None, stopping: false }).1 is Stop,
        WorkerModel::<S>::Idle.next(WorkerEvent::Received { job: None, stopping: true }).1 is Stop,
        WorkerModel::<S>::Idle.next(
            WorkerEvent::Received { job: Some(job), stopping: true },
        ).1 is Stop,
        match job {
            InferJob::Final(samples) => WorkerModel::<S>::Idle.next(
                WorkerEvent::Received { job: Some(job), stopping: false },
            ) == (
                WorkerModel::<S>::Transcribing(Port::Text),
                WorkerActionModel::Transcribe(samples@),
            ),
            InferJob::Partial(_) => WorkerModel::<S>::Idle.next(
                WorkerEvent::Received { job: Some(job), stopping: false },
            ).1 is TryReceive,
        },
{
}

/// A partial job is transcribed, just as it is, when nothing newer waits, and
/// gives way to whatever does.
pub proof fn a_partial_gives_way<S>(samples: Vec<S>, newer: InferJob<S>)
    ensures
        ({
            let (skimming, first) = WorkerModel::<S>::Idle.next(
                WorkerEvent::Received {
                    job: Some(InferJob::Partial(samples)),
                    stopping: false,
                },
            );
            &&& first is TryReceive
            &&& skimming.next(WorkerEvent::Next(None)) == (
                WorkerModel::<S>::Transcribing(Port::Partial),
                WorkerActionModel::Transcribe(samples@),
            )
            &&& skimming.next(WorkerEvent::Next(Some(newer))) == WorkerModel::<S>::Idle.next(
                WorkerEvent::Received { job: Some(newer), stopping: false },
            )
        }),
{
}

/// An empty text is never sent.
pub proof fn empty_texts_are_not_sent<S>(worker: WorkerModel<S>, event: WorkerEvent<S>)
    requires
        worker.expects(event),
    ensures
        worker.next(event).1 matches WorkerActionModel::Emit(_, text) ==> text.len() > 0,
{
    match event {
        WorkerEvent::Received { job: Some(j), stopping: _ } => {
            assert(!(WorkerModel::taking(j@).1 is Emit));
        },
        _ => {},
    }
}

/// The worker always waits for the event that its last action brings about,
/// whatever that turns out to be.
pub proof fn actions_bring_the_expected_events<S>(worker: WorkerModel<S>, event: WorkerEvent<S>)
    requires
        worker.expects(event),
    ensures
        match worker.next(event).1 {
            WorkerActionModel::Load => worker.next(event).0 is Loading,
            WorkerActionModel::Announce(_) => worker.next(event).0 is Announcing,
            WorkerActionModel::Receive => worker.next(event).0 is Idle,
            WorkerActionModel::TryReceive => worker.next(event).0 is Skimming,
            WorkerActionModel::Transcribe(_) => worker.next(event).0 is Transcribing,
            WorkerActionModel::Emit(_, _) => worker.next(event).0 is Emitting,
            WorkerActionModel::Stop => worker.next(event).0 is Done,
        },
        match worker.next(event).1 {
            WorkerActionModel::Load => forall|loaded: Result<(), AudioError>|
                #[trigger] worker.next(event).0.expects(WorkerEvent::Loaded(loaded)),
            WorkerActionModel::Announce(_) => worker.next(event).0.expects(WorkerEvent::Announced),
            WorkerActionModel::Receive => forall|job: Option<InferJob<S>>, stopping: bool|
                #[trigger] worker.next(event).0.expects(WorkerEvent::Received { job, stopping }),
            WorkerActionModel::TryReceive => forall|job: Option<InferJob<S>>|
                #[trigger] worker.next(event).0.expects(WorkerEvent::Next(job)),
            WorkerActionModel::Transcribe(_) => forall|text: Option<String>|
                #[trigger] worker.next(event).0.expects(WorkerEvent::Transcribed(text)),
            WorkerActionModel::Emit(_, _) => worker.next(event).0.expects(WorkerEvent::Emitted),
            WorkerActionModel::Stop => true,
        },
{
}

} // verus!

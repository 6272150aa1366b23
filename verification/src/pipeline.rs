//! From utterances to transcription jobs: which utterances are worth
//! transcribing, and when to show a partial result.

use crate::level::Level;
use crate::samples::{copy_range, last_n};
use crate::silero_vad::{reports_fit, Report, SileroVad};
use crate::vad::{can_be_processed, measures_all, peak_measured, processed, EnergyVad};
use vstd::prelude::*;

verus! {

/// The sample rate of everything that is transcribed.
pub const WHISPER_SAMPLE_RATE: u32 = 16_000;

/// Eight seconds: how much of the utterance in progress is decoded for a
/// partial result.
pub const PARTIAL_WINDOW: usize = 128_000;

/// Jobs that may wait for the worker before new utterances are dropped.
pub const INFER_QUEUE_DEPTH: usize = 3;

/// Audio to transcribe.
pub enum InferJob<S> {
    /// A whole utterance.
    Final(Vec<S>),
    /// The latest part of an utterance in progress.
    Partial(Vec<S>),
}

/// Audio to transcribe, as a value.
#[verifier::ext_equal]
pub enum JobModel<S> {
    Final(Seq<S>),
    Partial(Seq<S>),
}

impl<S> View for InferJob<S> {
    type V = JobModel<S>;

    open spec fn view(&self) -> JobModel<S> {
        match self {
            InferJob::Final(samples) => JobModel::Final(samples@),
            InferJob::Partial(samples) => JobModel::Partial(samples@),
        }
    }
}

impl<S> InferJob<S> {
    /// Whether this is a whole utterance.
    pub fn is_final(&self) -> (r: bool)
        ensures
            r == (self@ is Final),
    {
        match self {
            InferJob::Final(_) => true,
            InferJob::Partial(_) => false,
        }
    }
}

/// Whether `job` is the job that is due.
pub open spec fn job_is<S>(job: Option<InferJob<S>>, due: Option<JobModel<S>>) -> bool {
    match (job, due) {
        (Some(j), Some(d)) => j@ == d,
        (None, None) => true,
        _ => false,
    }
}

/// What a pipeline is set to, and how much speech it has seen since the last
/// partial result.
#[verifier::ext_equal]
pub struct PipelineModel {
    /// Quieter utterances are discarded; zero or less keeps them all.
    pub min_volume: Level,
    /// Speech between partial results; zero turns them off.
    pub interval: int,
    pub since: int,
}

impl PipelineModel {
    /// What holds between calls.
    pub open spec fn inv(self) -> bool {
        &&& 0 <= self.interval
        &&& 0 <= self.since
        &&& self.since > 0 ==> self.since < self.interval
    }

    /// Whether an utterance whose loudest window is as loud as `peak` is loud
    /// enough.
    pub open spec fn passes(self, peak: Level) -> bool {
        self.min_volume.at_most(Level::zero()) || !peak.below(self.min_volume)
    }

    /// Whether a chunk of `len` samples makes a partial result due.
    pub open spec fn partial_due(self, speaking: bool, len: int) -> bool {
        self.interval != 0 && speaking && self.since + len >= self.interval
    }

    /// The pipeline after a chunk of `len` samples: whether it completed an
    /// utterance, and whether another is in progress.
    pub open spec fn after(self, completed: bool, speaking: bool, len: int) -> PipelineModel {
        PipelineModel {
            since: if completed || self.interval == 0 || !speaking || self.partial_due(
                speaking,
                len,
            ) {
                0
            } else {
                self.since + len
            },
            ..self
        }
    }

    /// The job that a chunk of `len` samples makes due. `peak` is how loud the
    /// completed utterance is, `speech` is the utterance in progress.
    pub open spec fn job<S>(
        self,
        utterance: Option<Seq<S>>,
        peak: Level,
        speaking: bool,
        speech: Seq<S>,
        len: int,
    ) -> Option<JobModel<S>> {
        match utterance {
            Some(u) => if self.passes(peak) {
                Some(JobModel::Final(u))
            } else {
                None
            },
            None => if self.partial_due(speaking, len) {
                Some(JobModel::Partial(last_n(speech, PARTIAL_WINDOW as int)))
            } else {
                None
            },
        }
    }
}

/// The sequence in an optional vector.
pub open spec fn contents<S>(v: Option<Vec<S>>) -> Option<Seq<S>> {
    match v {
        Some(v) => Some(v@),
        None => None,
    }
}

/// Decides which audio is transcribed.
pub struct SpeechPipeline {
    min_volume: Level,
    partial_interval_samples: usize,
    samples_since_partial: usize,
}

impl View for SpeechPipeline {
    type V = PipelineModel;

    closed spec fn view(&self) -> PipelineModel {
        PipelineModel {
            min_volume: self.min_volume,
            interval: self.partial_interval_samples as int,
            since: self.samples_since_partial as int,
        }
    }
}

/// One decision of a pipeline: `peak` is what the measure had for the completed
/// utterance, if its loudness mattered.
pub open spec fn decided<S, F: Fn(&[S]) -> Level>(
    before: PipelineModel,
    utterance: Option<Seq<S>>,
    measure: F,
    peak: Level,
    speaking: bool,
    speech: Seq<S>,
    len: int,
    after: PipelineModel,
    job: Option<InferJob<S>>,
) -> bool {
    &&& utterance is Some && !before.min_volume.at_most(Level::zero()) ==> peak_measured(
        utterance->0,
        WHISPER_SAMPLE_RATE as int,
        measure,
        peak,
    )
    &&& after == before.after(utterance is Some, speaking, len)
    &&& job_is(job, before.job(utterance, peak, speaking, speech, len))
}

impl SpeechPipeline {
    /// A pipeline that has seen nothing.
    pub fn new(min_volume: Level, partial_interval_samples: usize) -> (r: Self)
        ensures
            r@ == (PipelineModel {
                min_volume,
                interval: partial_interval_samples as int,
                since: 0,
            }),
            r@.inv(),
    {
        SpeechPipeline { min_volume, partial_interval_samples, samples_since_partial: 0 }
    }

    /// Sets how loud an utterance has to be.
    pub fn set_min_volume(&mut self, min_volume: Level)
        ensures
            final(self)@ == (PipelineModel { min_volume, ..old(self)@ }),
    {
        self.min_volume = min_volume;
    }

    /// Whether an utterance is loud enough, given how loud its loudest window
    /// is.
    pub fn passes_min_volume(&self, peak: Level) -> (r: bool)
        ensures
            r == self@.passes(peak),
    {
        self.min_volume.is_at_most(Level { bits: 0 }) || !peak.is_below(self.min_volume)
    }

    /// Decides on the job that a chunk makes due, given what the detector made
    /// of it and how loud a completed utterance is.
    pub fn decide<S: Copy>(
        &mut self,
        utterance: Option<Vec<S>>,
        peak: Level,
        speaking: bool,
        speech: &[S],
        len: usize,
    ) -> (r: Option<InferJob<S>>)
        requires
            old(self)@.inv(),
        ensures
            final(self)@.inv(),
            final(self)@ == old(self)@.after(utterance is Some, speaking, len as int),
            job_is(
                r,
                old(self)@.job(contents(utterance), peak, speaking, speech@, len as int),
            ),
    {
        match utterance {
            Some(u) => {
                self.samples_since_partial = 0;
                if self.passes_min_volume(peak) {
                    Some(InferJob::Final(u))
                } else {
                    None
                }
            },
            None => {
                if self.partial_interval_samples == 0 || !speaking {
                    self.samples_since_partial = 0;
                    None
                } else if len >= self.partial_interval_samples - self.samples_since_partial {
                    self.samples_since_partial = 0;
                    let n: usize = speech.len();
                    let from: usize = if n > PARTIAL_WINDOW { n - PARTIAL_WINDOW } else { 0 };
                    assert(speech@.subrange(0, n as int) =~= speech@);
                    Some(InferJob::Partial(copy_range(speech, from, n)))
                } else {
                    self.samples_since_partial = self.samples_since_partial + len;
                    None
                }
            },
        }
    }

    /// Decides on the job that a chunk makes due, given what a detector made
    /// of it. A completed utterance is measured where its loudness matters.
    pub fn on_detected<S: Copy, F: Fn(&[S]) -> Level>(
        &mut self,
        utterance: Option<Vec<S>>,
        speaking: bool,
        speech: &[S],
        len: usize,
        measure: &F,
    ) -> (r: Option<InferJob<S>>)
        requires
            old(self)@.inv(),
            measures_all::<S, F>(*measure),
        ensures
            final(self)@.inv(),
            exists|peak: Level| #[trigger]
                decided(
                    old(self)@,
                    contents(utterance),
                    *measure,
                    peak,
                    speaking,
                    speech@,
                    len as int,
                    final(self)@,
                    r,
                ),
    {
        let ghost before = self@;
        let peak = match &utterance {
            Some(u) => if self.min_volume.is_at_most(Level { bits: 0 }) {
                Level { bits: 0 }
            } else {
                EnergyVad::<S>::peak_rms(u.as_slice(), WHISPER_SAMPLE_RATE, measure)
            },
            None => Level { bits: 0 },
        };
        let ghost what = contents(utterance);
        let r = self.decide(utterance, peak, speaking, speech, len);
        assert(decided(before, what, *measure, peak, speaking, speech@, len as int, self@, r));
        r
    }

    /// Feeds audio through the energy detector and decides on the job that it
    /// makes due.
    pub fn feed<S: Copy, F: Fn(&[S]) -> Level>(
        &mut self,
        vad: &mut EnergyVad<S>,
        samples: &[S],
        measure: &F,
    ) -> (r: Option<InferJob<S>>)
        requires
            old(self)@.inv(),
            old(vad).wf(),
            measures_all::<S, F>(*measure),
            can_be_processed(old(vad)@, samples@, *measure),
        ensures
            final(self)@.inv(),
            final(vad).wf(),
            exists|level: Level, levels: Seq<Level>, utterance: Option<Vec<S>>, peak: Level|
                {
                    &&& #[trigger] processed(
                        old(vad)@,
                        samples@,
                        *measure,
                        level,
                        levels,
                        final(vad)@,
                        utterance,
                    )
                    &&& #[trigger] decided(
                        old(self)@,
                        contents(utterance),
                        *measure,
                        peak,
                        final(vad)@.speaking,
                        final(vad)@.speech,
                        samples@.len() as int,
                        final(self)@,
                        r,
                    )
                },
    {
        let utterance = vad.process(samples, measure);
        let speaking = vad.is_speaking();
        self.on_detected(utterance, speaking, vad.current_speech(), samples.len(), measure)
    }

    /// Feeds audio through the Silero detector and decides on the job that it
    /// makes due.
    pub fn feed_silero<S: Copy, F: Fn(&[S]) -> Level>(
        &mut self,
        vad: &mut SileroVad<S>,
        samples: &[S],
        reports: &Vec<Report<S>>,
        measure: &F,
    ) -> (r: Option<InferJob<S>>)
        requires
            old(self)@.inv(),
            old(vad)@.inv(),
            old(vad)@.carry.len() + samples@.len() <= usize::MAX,
            old(vad)@.fed + old(vad)@.carry.len() + samples@.len() <= usize::MAX,
            reports@.len() == old(vad)@.windows_due(samples@.len() as int),
            reports_fit(old(vad)@.fed, reports@),
            measures_all::<S, F>(*measure),
        ensures
            final(self)@.inv(),
            final(vad)@.inv(),
            final(vad)@ == old(vad)@.after(samples@, reports@),
            exists|peak: Level| #[trigger]
                decided(
                    old(self)@,
                    old(vad)@.output(samples@, reports@),
                    *measure,
                    peak,
                    final(vad)@.speaking,
                    final(vad)@.current(),
                    samples@.len() as int,
                    final(self)@,
                    r,
                ),
    {
        let utterance = vad.process(samples, reports);
        assert(contents(utterance) == old(vad)@.output(samples@, reports@));
        let speaking = vad.is_speaking();
        self.on_detected(utterance, speaking, vad.current_speech(), samples.len(), measure)
    }
}

/// How a job fared that was handed to the worker's queue without waiting.
#[derive(Clone, Copy, Debug, PartialEq, Eq, Structural)]
pub enum Sent {
    Queued,
    /// The queue is full: the job is dropped, so that the audio path never
    /// waits.
    Full,
    /// The worker is gone.
    Disconnected,
}

/// What is told of a job that was handed to the worker's queue: only the loss
/// of a whole utterance to a full queue is worth a word.
pub fn submit_status(is_final: bool, sent: Sent) -> (r: Option<&'static str>)
    ensures
        match r {
            Some(status) => {
                &&& is_final
                &&& sent == Sent::Full
                &&& status@ == "dropped: transcription backlog"@
            },
            None => !(is_final && sent == Sent::Full),
        },
{
    if is_final && sent == Sent::Full {
        Some("dropped: transcription backlog")
    } else {
        None
    }
}

/// A partial result is only ever due while an utterance is in progress and
/// partial results are turned on. It shows the end of that utterance, at most
/// eight seconds of it.
pub proof fn partials_show_the_utterance_in_progress<S>(
    pipeline: PipelineModel,
    utterance: Option<Seq<S>>,
    peak: Level,
    speaking: bool,
    speech: Seq<S>,
    len: int,
)
    ensures
        pipeline.job(utterance, peak, speaking, speech, len) matches Some(JobModel::Partial(part))
            ==> {
            &&& utterance is None
            &&& speaking
            &&& pipeline.interval != 0
            &&& pipeline.inv() ==> pipeline.interval > 0
            &&& part.len() == (if speech.len() < 128_000 { speech.len() as int } else { 128_000 })
            &&& part == speech.subrange(speech.len() - part.len(), speech.len() as int)
        },
{
    assert(speech.subrange(0, speech.len() as int) =~= speech);
}

/// A whole utterance is transcribed just as the detector gave it, exactly when
/// it is loud enough.
pub proof fn loud_utterances_are_transcribed_whole<S>(
    pipeline: PipelineModel,
    utterance: Seq<S>,
    peak: Level,
    speaking: bool,
    speech: Seq<S>,
    len: int,
)
    ensures
        pipeline.job(Some(utterance), peak, speaking, speech, len) == (if pipeline.passes(peak) {
            Some(JobModel::Final(utterance))
        } else {
            None
        }),
{
}

/// Every minimum volume above zero discards what is quieter and keeps what is
/// not; one at zero or below, or that is no number, discards nothing.
pub proof fn quieter_utterances_are_discarded(pipeline: PipelineModel, peak: Level)
    ensures
        (Level { bits: 0 }).below(pipeline.min_volume) && peak.below(pipeline.min_volume)
            ==> !pipeline.passes(peak),
        !peak.below(pipeline.min_volume) ==> pipeline.passes(peak),
        !(Level { bits: 0 }).below(pipeline.min_volume) ==> pipeline.passes(peak),
{
}

/// What comes of an utterance: it is transcribed whole, just as the detector gave
/// it, unless a minimum volume above zero is set and its loudest window is
/// quieter. With it, the wait for a partial result begins anew.
pub proof fn an_utterance_is_kept_whole_or_discarded<S, F: Fn(&[S]) -> Level>(
    before: PipelineModel,
    utterance: Seq<S>,
    measure: F,
    peak: Level,
    speaking: bool,
    speech: Seq<S>,
    len: int,
    after: PipelineModel,
    job: Option<InferJob<S>>,
)
    requires
        decided(before, Some(utterance), measure, peak, speaking, speech, len, after, job),
    ensures
        (Level { bits: 0 }).below(before.min_volume) ==> {
            &&& peak_measured(utterance, 16_000, measure, peak)
            &&& match job {
                Some(InferJob::Final(samples)) => samples@ == utterance && !peak.below(
                    before.min_volume,
                ),
                Some(InferJob::Partial(_)) => false,
                None => peak.below(before.min_volume),
            }
        },
        before.min_volume.at_most(Level { bits: 0 }) ==> {
            job matches Some(InferJob::Final(samples)) && samples@ == utterance
        },
        after == (PipelineModel { since: 0, ..before }),
{
}

/// What comes of speech in progress: nothing before the speech since the last
/// partial result reaches the set interval, and then the last eight seconds of
/// it. Silence begins the wait anew, and no interval turns partial results off.
pub proof fn speech_in_progress_is_shown_at_intervals<S, F: Fn(&[S]) -> Level>(
    before: PipelineModel,
    measure: F,
    peak: Level,
    speaking: bool,
    speech: Seq<S>,
    len: int,
    after: PipelineModel,
    job: Option<InferJob<S>>,
)
    requires
        decided(before, None, measure, peak, speaking, speech, len, after, job),
    ensures
        ({
            let on = speaking && before.interval != 0;
            let due = on && before.since + len >= before.interval;
            let n = speech.len() as int;
            &&& match job {
                Some(InferJob::Partial(part)) => {
                    &&& due
                    &&& part@.len() == (if n < 128_000 { n } else { 128_000 })
                    &&& part@ == speech.subrange(n - part@.len(), n)
                },
                Some(InferJob::Final(_)) => false,
                None => !due,
            }
            &&& after == (PipelineModel {
                since: if on && !due { before.since + len } else { 0 },
                ..before
            })
        }),
{
    assert(speech.subrange(0, speech.len() as int) =~= speech);
}

/// What is decided on is what the detector handed out.
pub proof fn contents_are_what_is_held<S>(v: Vec<S>)
    ensures
        contents(Some(v)) == Some(v@),
        contents(None::<Vec<S>>) is None,
{
}

/// With the minimum volume at zero no utterance is discarded.
pub proof fn zero_min_volume_keeps_every_utterance(pipeline: PipelineModel, peak: Level)
    requires
        pipeline.min_volume == Level::zero(),
    ensures
        pipeline.passes(peak),
{
}

/// An utterance at least as loud as one that is kept is kept.
pub proof fn louder_utterances_pass_too(pipeline: PipelineModel, peak: Level, louder: Level)
    requires
        peak.at_most(louder),
        pipeline.passes(peak),
    ensures
        pipeline.passes(louder),
{
}

/// The total of a list of lengths.
pub open spec fn total(lens: Seq<int>) -> int
    decreases lens.len(),
{
    if lens.len() == 0 {
        0
    } else {
        total(lens.drop_last()) + lens.last()
    }
}

/// The pipeline after chunks of these lengths, none of which completed an
/// utterance and all of which were speech.
pub open spec fn after_speech(pipeline: PipelineModel, lens: Seq<int>) -> PipelineModel
    decreases lens.len(),
{
    if lens.len() == 0 {
        pipeline
    } else {
        after_speech(pipeline, lens.drop_last()).after(false, true, lens.last())
    }
}

/// While an utterance is in progress, a partial result is due with the chunk in
/// which the speech since the last one reaches the set interval, and with none
/// before.
pub proof fn partials_come_on_time(pipeline: PipelineModel, lens: Seq<int>, next: int)
    requires
        pipeline.inv(),
        pipeline.interval > 0,
        forall|i: int| 0 <= i < lens.len() ==> 0 <= #[trigger] lens[i],
        pipeline.since + total(lens) < pipeline.interval,
    ensures
        after_speech(pipeline, lens) == (PipelineModel {
            since: pipeline.since + total(lens),
            ..pipeline
        }),
        after_speech(pipeline, lens).partial_due(true, next) <==> pipeline.since + total(lens)
            + next >= pipeline.interval,
        after_speech(pipeline, lens).partial_due(true, next) ==> after_speech(
            pipeline,
            lens,
        ).after(false, true, next).since == 0,
    decreases lens.len(),
{
    if lens.len() > 0 {
        let earlier = lens.drop_last();
        assert(lens.last() == lens[lens.len() - 1]);
        assert forall|i: int| 0 <= i < earlier.len() implies 0 <= #[trigger] earlier[i] by {
            assert(earlier[i] == lens[i]);
        }
        partials_come_on_time(pipeline, earlier, lens.last());
    }
}

} // verus!

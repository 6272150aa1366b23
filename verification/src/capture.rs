//! The capture loop as a state machine.
//!
//! The machine says what to do next; the caller does it and reports back. All
//! waiting, reading and resampling happens outside, every decision here.

use crate::error::AudioError;
use crate::pipeline::WHISPER_SAMPLE_RATE;
use crate::samples::{copy_range, drain_front, extend};
use crate::vad::steps_to_cover;
use vstd::prelude::*;
use vstd::slice::slice_subrange;

verus! {

/// How long a paused loop sleeps, in milliseconds.
pub const PAUSED_SLEEP_MS: u64 = 50;

/// How long a loop without input sleeps, in milliseconds.
pub const STARVED_SLEEP_MS: u64 = 5;

/// Blocks that are read from the ring in a second.
pub const BLOCKS_PER_SECOND: u64 = 100;

/// The size of a block of about 10 ms of interleaved audio.
pub open spec fn block_size(sample_rate: int, channels: int) -> int {
    sample_rate * channels / BLOCKS_PER_SECOND as int
}

/// What a running capture can be told.
#[derive(Clone, Copy, Debug, PartialEq, Eq, Structural)]
pub enum Command {
    Pause,
    Resume,
    Shutdown,
}

/// What happened when the last action was carried out.
pub enum CaptureEvent<S> {
    /// The command that was waiting, if any.
    Command(Option<Command>),
    /// What the audio callback left behind: the error of a failed stream, and
    /// how many samples it could not put into the ring.
    Stream { error: Option<String>, dropped: usize },
    /// The status was reported.
    Reported,
    /// The sleep is over.
    Woke,
    /// The block that was read, mixed down to one channel, or nothing.
    Block(Option<Vec<S>>),
    /// How many samples the resampler wants next.
    FramesNeeded(usize),
    /// What the resampler gave, if it did not fail.
    Resampled(Option<Vec<S>>),
    /// The audio was fed to the pipeline.
    Fed,
}

/// What to do next.
pub enum CaptureAction<S> {
    /// Look for a command, without waiting.
    PollCommand,
    /// Collect what the audio callback left behind.
    PollStream,
    /// Report a status.
    Report(&'static str),
    /// Sleep for some milliseconds.
    Sleep(u64),
    /// Read a block of interleaved samples from the ring.
    ReadBlock(usize),
    /// Ask the resampler how much it wants.
    AskResampler,
    /// Resample these.
    Resample(Vec<S>),
    /// Feed these to the pipeline.
    Feed(Vec<S>),
    /// The capture is over.
    Stop,
    /// The capture has failed.
    Fail(AudioError),
}

/// What to do next, as a value.
#[verifier::ext_equal]
pub enum ActionModel<S> {
    PollCommand,
    PollStream,
    Report(Seq<char>),
    Sleep(int),
    ReadBlock(int),
    AskResampler,
    Resample(Seq<S>),
    Feed(Seq<S>),
    Stop,
    Fail(AudioError),
}

impl<S> View for CaptureAction<S> {
    type V = ActionModel<S>;

    open spec fn view(&self) -> ActionModel<S> {
        match self {
            CaptureAction::PollCommand => ActionModel::PollCommand,
            CaptureAction::PollStream => ActionModel::PollStream,
            CaptureAction::Report(status) => ActionModel::Report(status@),
            CaptureAction::Sleep(ms) => ActionModel::Sleep(*ms as int),
            CaptureAction::ReadBlock(n) => ActionModel::ReadBlock(*n as int),
            CaptureAction::AskResampler => ActionModel::AskResampler,
            CaptureAction::Resample(samples) => ActionModel::Resample(samples@),
            CaptureAction::Feed(samples) => ActionModel::Feed(samples@),
            CaptureAction::Stop => ActionModel::Stop,
            CaptureAction::Fail(e) => ActionModel::Fail(*e),
        }
    }
}

/// What the loop is waiting for.
#[derive(Clone, Copy, Debug, PartialEq, Eq, Structural)]
pub enum Phase {
    Commands,
    Stream,
    Reporting,
    Sleeping,
    Reading,
    Asking,
    Resampling,
    Feeding,
    Done,
}

/// The state of a capture loop.
#[verifier::ext_equal]
pub struct CaptureModel<S> {
    pub phase: Phase,
    pub paused: bool,
    /// Whether samples were lost the last time the stream was looked at.
    pub in_overrun: bool,
    /// Whether the device runs at another rate than the pipeline.
    pub resampling: bool,
    pub block: int,
    /// Samples that wait for the resampler.
    pub mono: Seq<S>,
}

impl<S> CaptureModel<S> {
    /// A loop that has done nothing yet.
    pub open spec fn fresh(sample_rate: int, channels: int) -> CaptureModel<S> {
        CaptureModel {
            phase: Phase::Commands,
            paused: false,
            in_overrun: false,
            resampling: sample_rate != WHISPER_SAMPLE_RATE,
            block: block_size(sample_rate, channels),
            mono: Seq::empty(),
        }
    }

    /// Whether an event is one that the loop is waiting for.
    pub open spec fn expects(self, event: CaptureEvent<S>) -> bool {
        match event {
            CaptureEvent::Command(_) => self.phase == Phase::Commands,
            CaptureEvent::Stream { .. } => self.phase == Phase::Stream,
            CaptureEvent::Reported => self.phase == Phase::Reporting,
            CaptureEvent::Woke => self.phase == Phase::Sleeping,
            CaptureEvent::Block(_) => self.phase == Phase::Reading,
            CaptureEvent::FramesNeeded(_) => self.phase == Phase::Asking,
            CaptureEvent::Resampled(_) => self.phase == Phase::Resampling,
            CaptureEvent::Fed => self.phase == Phase::Feeding,
        }
    }

    /// The loop in another phase.
    pub open spec fn at(self, phase: Phase) -> CaptureModel<S> {
        CaptureModel { phase, ..self }
    }

    /// Once the stream was looked at: a paused loop sleeps, another one reads.
    pub open spec fn settled(self) -> (CaptureModel<S>, ActionModel<S>) {
        if self.paused {
            (self.at(Phase::Sleeping), ActionModel::Sleep(PAUSED_SLEEP_MS as int))
        } else {
            (self.at(Phase::Reading), ActionModel::ReadBlock(self.block))
        }
    }

    /// The state and the action that follow an event.
    pub open spec fn next(self, event: CaptureEvent<S>) -> (CaptureModel<S>, ActionModel<S>) {
        match event {
            CaptureEvent::Command(Some(Command::Shutdown)) => (
                self.at(Phase::Done),
                ActionModel::Stop,
            ),
            CaptureEvent::Command(Some(Command::Pause)) => (
                CaptureModel { paused: true, ..self },
                ActionModel::PollCommand,
            ),
            CaptureEvent::Command(Some(Command::Resume)) => (
                CaptureModel { paused: false, phase: Phase::Stream, ..self },
                ActionModel::PollStream,
            ),
            CaptureEvent::Command(None) => (self.at(Phase::Stream), ActionModel::PollStream),
            CaptureEvent::Stream { error: Some(message), dropped: _ } => (
                self.at(Phase::Done),
                ActionModel::Fail(AudioError::IoError(message)),
            ),
            CaptureEvent::Stream { error: None, dropped } => {
                let noted = CaptureModel { in_overrun: dropped > 0, ..self };
                if dropped > 0 && !self.in_overrun {
                    (
                        noted.at(Phase::Reporting),
                        ActionModel::Report("overrun: input samples dropped"@),
                    )
                } else {
                    noted.settled()
                }
            },
            CaptureEvent::Reported => self.settled(),
            CaptureEvent::Woke => (self.at(Phase::Commands), ActionModel::PollCommand),
            CaptureEvent::Block(None) => (
                self.at(Phase::Sleeping),
                ActionModel::Sleep(STARVED_SLEEP_MS as int),
            ),
            CaptureEvent::Block(Some(samples)) => {
                let all = self.mono + samples@;
                if self.resampling {
                    (
                        CaptureModel { phase: Phase::Asking, mono: all, ..self },
                        ActionModel::AskResampler,
                    )
                } else {
                    (
                        CaptureModel { phase: Phase::Feeding, mono: Seq::empty(), ..self },
                        ActionModel::Feed(all),
                    )
                }
            },
            CaptureEvent::FramesNeeded(n) => if self.mono.len() >= n {
                (
                    CaptureModel {
                        phase: Phase::Resampling,
                        mono: self.mono.subrange(n as int, self.mono.len() as int),
                        ..self
                    },
                    ActionModel::Resample(self.mono.subrange(0, n as int)),
                )
            } else {
                (self.at(Phase::Commands), ActionModel::PollCommand)
            },
            CaptureEvent::Resampled(Some(samples)) => if samples@.len() > 0 {
                (self.at(Phase::Feeding), ActionModel::Feed(samples@))
            } else {
                (self.at(Phase::Asking), ActionModel::AskResampler)
            },
            CaptureEvent::Resampled(None) => (self.at(Phase::Asking), ActionModel::AskResampler),
            CaptureEvent::Fed => if self.resampling {
                (self.at(Phase::Asking), ActionModel::AskResampler)
            } else {
                (self.at(Phase::Commands), ActionModel::PollCommand)
            },
        }
    }
}

/// A capture loop. It begins with `CaptureAction::PollCommand`.
pub struct CaptureLoop<S> {
    phase: Phase,
    paused: bool,
    in_overrun: bool,
    resampling: bool,
    block: usize,
    mono: Vec<S>,
}

impl<S> View for CaptureLoop<S> {
    type V = CaptureModel<S>;

    closed spec fn view(&self) -> CaptureModel<S> {
        CaptureModel {
            phase: self.phase,
            paused: self.paused,
            in_overrun: self.in_overrun,
            resampling: self.resampling,
            block: self.block as int,
            mono: self.mono@,
        }
    }
}

impl<S: Copy> CaptureLoop<S> {
    /// A loop for a device with this sample rate and number of channels.
    pub fn new(sample_rate: u32, channels: u16) -> (r: Self)
        requires
            block_size(sample_rate as int, channels as int) <= usize::MAX,
        ensures
            r@ == CaptureModel::<S>::fresh(sample_rate as int, channels as int),
    {
        proof {
            assert(0 <= sample_rate as int * channels as int <= 0xffff_ffff * 0xffff)
                by (nonlinear_arith)
                requires
                    0 <= sample_rate <= 0xffff_ffff,
                    0 <= channels <= 0xffff,
            ;
        }
        let block: u64 = sample_rate as u64 * channels as u64 / BLOCKS_PER_SECOND;
        let r = CaptureLoop {
            phase: Phase::Commands,
            paused: false,
            in_overrun: false,
            resampling: sample_rate != WHISPER_SAMPLE_RATE,
            block: block as usize,
            mono: Vec::new(),
        };
        assert(r@ =~= CaptureModel::<S>::fresh(sample_rate as int, channels as int));
        r
    }

    /// Sleeps when paused, reads otherwise.
    fn settle(&mut self) -> (r: CaptureAction<S>)
        ensures
            (final(self)@, r@) == old(self)@.settled(),
    {
        if self.paused {
            self.phase = Phase::Sleeping;
            CaptureAction::Sleep(PAUSED_SLEEP_MS)
        } else {
            self.phase = Phase::Reading;
            CaptureAction::ReadBlock(self.block)
        }
    }

    /// Takes note of what happened and says what to do next.
    pub fn step(&mut self, event: CaptureEvent<S>) -> (r: CaptureAction<S>)
        requires
            old(self)@.expects(event),
        ensures
            (final(self)@, r@) == old(self)@.next(event),
    {
        match event {
            CaptureEvent::Command(Some(Command::Shutdown)) => {
                self.phase = Phase::Done;
                CaptureAction::Stop
            },
            CaptureEvent::Command(Some(Command::Pause)) => {
                self.paused = true;
                CaptureAction::PollCommand
            },
            CaptureEvent::Command(Some(Command::Resume)) => {
                self.paused = false;
                self.phase = Phase::Stream;
                CaptureAction::PollStream
            },
            CaptureEvent::Command(None) => {
                self.phase = Phase::Stream;
                CaptureAction::PollStream
            },
            CaptureEvent::Stream { error: Some(message), dropped: _ } => {
                self.phase = Phase::Done;
                CaptureAction::Fail(AudioError::IoError(message))
            },
            CaptureEvent::Stream { error: None, dropped } => {
                let begins = dropped > 0 && !self.in_overrun;
                self.in_overrun = dropped > 0;
                if begins {
                    self.phase = Phase::Reporting;
                    CaptureAction::Report("overrun: input samples dropped")
                } else {
                    self.settle()
                }
            },
            CaptureEvent::Reported => self.settle(),
            CaptureEvent::Woke => {
                self.phase = Phase::Commands;
                CaptureAction::PollCommand
            },
            CaptureEvent::Block(None) => {
                self.phase = Phase::Sleeping;
                CaptureAction::Sleep(STARVED_SLEEP_MS)
            },
            CaptureEvent::Block(Some(samples)) => {
                extend(&mut self.mono, samples.as_slice());
                if self.resampling {
                    self.phase = Phase::Asking;
                    CaptureAction::AskResampler
                } else {
                    self.phase = Phase::Feeding;
                    let mut all: Vec<S> = Vec::new();
                    std::mem::swap(&mut all, &mut self.mono);
                    CaptureAction::Feed(all)
                }
            },
            CaptureEvent::FramesNeeded(n) => {
                if self.mono.len() >= n {
                    self.phase = Phase::Resampling;
                    CaptureAction::Resample(drain_front(&mut self.mono, n))
                } else {
                    self.phase = Phase::Commands;
                    CaptureAction::PollCommand
                }
            },
            CaptureEvent::Resampled(Some(samples)) => {
                if samples.len() > 0 {
                    self.phase = Phase::Feeding;
                    CaptureAction::Feed(samples)
                } else {
                    self.phase = Phase::Asking;
                    CaptureAction::AskResampler
                }
            },
            CaptureEvent::Resampled(None) => {
                self.phase = Phase::Asking;
                CaptureAction::AskResampler
            },
            CaptureEvent::Fed => {
                if self.resampling {
                    self.phase = Phase::Asking;
                    CaptureAction::AskResampler
                } else {
                    self.phase = Phase::Commands;
                    CaptureAction::PollCommand
                }
            },
        }
    }
}

/// The loop after a run of events.
pub open spec fn after_all<S>(start: CaptureModel<S>, events: Seq<CaptureEvent<S>>) -> CaptureModel<S>
    decreases events.len(),
{
    if events.len() == 0 {
        start
    } else {
        after_all(start, events.drop_last()).next(events.last()).0
    }
}

/// The samples that were read in a run of events, in order.
pub open spec fn samples_read<S>(events: Seq<CaptureEvent<S>>) -> Seq<S>
    decreases events.len(),
{
    if events.len() == 0 {
        Seq::empty()
    } else {
        samples_read(events.drop_last()) + (match events.last() {
            CaptureEvent::Block(Some(samples)) => samples@,
            _ => Seq::empty(),
        })
    }
}

/// The samples that a run of events sent on as they were read, in order: to
/// the resampler, or to the pipeline where there is nothing to resample.
pub open spec fn samples_sent_on<S>(
    start: CaptureModel<S>,
    events: Seq<CaptureEvent<S>>,
) -> Seq<S>
    decreases events.len(),
{
    if events.len() == 0 {
        Seq::empty()
    } else {
        let action = after_all(start, events.drop_last()).next(events.last()).1;
        samples_sent_on(start, events.drop_last()) + (match (events.last(), action) {
            (CaptureEvent::Block(_), ActionModel::Feed(samples)) => samples,
            (CaptureEvent::FramesNeeded(_), ActionModel::Resample(samples)) => samples,
            _ => Seq::empty(),
        })
    }
}

/// No sample that was read is lost, and none comes twice: those that were sent
/// on, followed by those that wait, are all that were read.
pub proof fn no_sample_is_lost<S>(start: CaptureModel<S>, events: Seq<CaptureEvent<S>>)
    ensures
        samples_sent_on(start, events) + after_all(start, events).mono == start.mono
            + samples_read(events),
    decreases events.len(),
{
    if events.len() == 0 {
        assert(samples_sent_on(start, events) + start.mono =~= start.mono + samples_read(events));
    } else {
        let earlier = events.drop_last();
        no_sample_is_lost(start, earlier);
        let state = after_all(start, earlier);
        let read: Seq<S> = match events.last() {
            CaptureEvent::Block(Some(samples)) => samples@,
            _ => Seq::empty(),
        };
        assert(start.mono + samples_read(events) =~= (samples_sent_on(start, earlier) + state.mono)
            + read);
        assert(samples_sent_on(start, events) + after_all(start, events).mono =~= (samples_sent_on(
            start,
            earlier,
        ) + state.mono) + read);
    }
}

/// All that a run of events feeds to the pipeline, in order.
pub open spec fn samples_fed<S>(start: CaptureModel<S>, events: Seq<CaptureEvent<S>>) -> Seq<S>
    decreases events.len(),
{
    if events.len() == 0 {
        Seq::empty()
    } else {
        samples_fed(start, events.drop_last()) + (match after_all(start, events.drop_last()).next(
            events.last(),
        ).1 {
            ActionModel::Feed(samples) => samples,
            _ => Seq::empty(),
        })
    }
}

/// All that a run of events hands to the resampler, in order.
pub open spec fn samples_to_resample<S>(
    start: CaptureModel<S>,
    events: Seq<CaptureEvent<S>>,
) -> Seq<S>
    decreases events.len(),
{
    if events.len() == 0 {
        Seq::empty()
    } else {
        samples_to_resample(start, events.drop_last()) + (match after_all(
            start,
            events.drop_last(),
        ).next(events.last()).1 {
            ActionModel::Resample(samples) => samples,
            _ => Seq::empty(),
        })
    }
}

/// All that the resampler gives in a run of events, in order.
pub open spec fn samples_resampled<S>(events: Seq<CaptureEvent<S>>) -> Seq<S>
    decreases events.len(),
{
    if events.len() == 0 {
        Seq::empty()
    } else {
        samples_resampled(events.drop_last()) + (match events.last() {
            CaptureEvent::Resampled(Some(samples)) => samples@,
            _ => Seq::empty(),
        })
    }
}

/// With a resampler, the pipeline is fed all that the resampler gives, in order,
/// and the resampler gets all that is read, in order, but for what still waits:
/// nothing is lost and nothing comes twice.
pub proof fn all_that_is_resampled_is_fed<S>(start: CaptureModel<S>, events: Seq<CaptureEvent<S>>)
    requires
        start.resampling,
    ensures
        samples_fed(start, events) == samples_resampled(events),
        samples_to_resample(start, events) + after_all(start, events).mono == start.mono
            + samples_read(events),
        after_all(start, events).resampling,
    decreases events.len(),
{
    if events.len() == 0 {
        assert(samples_to_resample(start, events) + start.mono =~= start.mono + samples_read(
            events,
        ));
    } else {
        let earlier = events.drop_last();
        all_that_is_resampled_is_fed(start, earlier);
        let state = after_all(start, earlier);
        let read: Seq<S> = match events.last() {
            CaptureEvent::Block(Some(samples)) => samples@,
            _ => Seq::empty(),
        };
        assert(samples_fed(start, events) =~= samples_resampled(events));
        assert(start.mono + samples_read(events) =~= (samples_to_resample(start, earlier)
            + state.mono) + read);
        assert(samples_to_resample(start, events) + after_all(start, events).mono =~= (
        samples_to_resample(start, earlier) + state.mono) + read);
    }
}

/// Without a resampler, the pipeline is fed all that is read, in order, as soon
/// as it is read.
pub proof fn all_that_is_read_is_fed<S>(start: CaptureModel<S>, events: Seq<CaptureEvent<S>>)
    requires
        !start.resampling,
        start.mono.len() == 0,
        forall|i: int|
            0 <= i < events.len() ==> !(#[trigger] events[i] is Resampled)
                && !(events[i] is FramesNeeded),
    ensures
        samples_fed(start, events) == samples_read(events),
        after_all(start, events).mono.len() == 0,
        !after_all(start, events).resampling,
    decreases events.len(),
{
    if events.len() > 0 {
        let earlier = events.drop_last();
        assert(events.last() == events[events.len() - 1]);
        assert forall|i: int| 0 <= i < earlier.len() implies !(#[trigger] earlier[i] is Resampled)
            && !(earlier[i] is FramesNeeded) by {
            assert(earlier[i] == events[i]);
        }
        all_that_is_read_is_fed(start, earlier);
        assert(samples_fed(start, events) =~= samples_read(events));
    }
}

/// A device at 16 kHz needs no resampler, any other does. A block is a hundredth
/// of a second of all channels. A loop starts out running, with nothing waiting.
pub proof fn a_fresh_loop_fits_its_device<S>(sample_rate: int, channels: int)
    requires
        0 <= sample_rate,
        0 <= channels,
    ensures
        ({
            let fresh = CaptureModel::<S>::fresh(sample_rate, channels);
            &&& fresh.resampling <==> sample_rate != 16_000
            &&& 100 * fresh.block <= sample_rate * channels < 100 * (fresh.block + 1)
            &&& !fresh.paused && !fresh.in_overrun && fresh.mono.len() == 0
            &&& fresh.phase == Phase::Commands
        }),
{
}

/// Nothing but a command pauses or resumes the loop, and nothing changes the
/// size of its blocks or whether it resamples.
pub proof fn only_commands_pause<S>(state: CaptureModel<S>, event: CaptureEvent<S>)
    ensures
        state.next(event).0.paused == (match event {
            CaptureEvent::Command(Some(Command::Pause)) => true,
            CaptureEvent::Command(Some(Command::Resume)) => false,
            _ => state.paused,
        }),
        state.next(event).0.block == state.block,
        state.next(event).0.resampling == state.resampling,
{
}

/// A round of the loop: with no command waiting, the stream is looked at; unless
/// it is broken the loop then reads a block, or sleeps 50 ms when it is paused,
/// once a new loss of samples was reported. After a pause it looks for further
/// commands first, after a resume it goes on at once.
pub proof fn a_round_looks_before_it_reads<S>(
    state: CaptureModel<S>,
    dropped: usize,
    message: String,
)
    ensures
        ({
            let looking = state.next(CaptureEvent::Command(None));
            let looked = looking.0.next(CaptureEvent::Stream { error: None, dropped });
            let told = looked.0.next(CaptureEvent::Reported);
            let last = if looked.1 is Report {
                told
            } else {
                looked
            };
            &&& looking.1 is PollStream
            &&& looked.1 is Report ==> looked.1 == ActionModel::<S>::Report(
                "overrun: input samples dropped"@,
            )
            &&& state.paused ==> last.1 == ActionModel::<S>::Sleep(50)
            &&& !state.paused ==> last.1 == ActionModel::<S>::ReadBlock(state.block)
            &&& last.0.mono == state.mono
            &&& looking.0.next(CaptureEvent::Stream { error: Some(message), dropped }).1
                == ActionModel::<S>::Fail(AudioError::IoError(message))
        }),
        state.next(CaptureEvent::Command(Some(Command::Pause))).1 is PollCommand,
        state.next(CaptureEvent::Command(Some(Command::Resume))).1 is PollStream,
        state.next(CaptureEvent::Command(Some(Command::Shutdown))).1 is Stop,
        state.next(CaptureEvent::Woke).1 is PollCommand,
        state.next(CaptureEvent::Block(None)).1 == ActionModel::<S>::Sleep(5),
{
}

/// The resampler gets exactly as many samples as it asks for, the oldest that
/// wait, as soon as they are there. It is asked again after every turn, so that
/// the loop goes back to its commands only when too few are left.
pub proof fn the_resampler_gets_what_it_asks_for<S>(
    state: CaptureModel<S>,
    n: usize,
    given: Option<Vec<S>>,
    block: Vec<S>,
)
    requires
        state.resampling,
    ensures
        state.next(CaptureEvent::Block(Some(block))).1 is AskResampler,
        state.mono.len() >= n ==> {
            &&& state.next(CaptureEvent::FramesNeeded(n)).1 == ActionModel::Resample(
                state.mono.subrange(0, n as int),
            )
            &&& state.next(CaptureEvent::FramesNeeded(n)).0.mono == state.mono.subrange(
                n as int,
                state.mono.len() as int,
            )
        },
        state.mono.len() < n ==> {
            &&& state.next(CaptureEvent::FramesNeeded(n)).1 is PollCommand
            &&& state.next(CaptureEvent::FramesNeeded(n)).0.mono == state.mono
        },
        state.next(CaptureEvent::Fed).1 is AskResampler,
        match given {
            Some(samples) => if samples@.len() > 0 {
                state.next(CaptureEvent::Resampled(given)).1 == ActionModel::Feed(samples@)
            } else {
                state.next(CaptureEvent::Resampled(given)).1 is AskResampler
            },
            None => state.next(CaptureEvent::Resampled(given)).1 is AskResampler,
        },
{
}

/// A paused loop reads nothing until it is resumed.
pub proof fn paused_capture_reads_nothing<S>(
    start: CaptureModel<S>,
    events: Seq<CaptureEvent<S>>,
    event: CaptureEvent<S>,
)
    requires
        start.paused,
        forall|i: int|
            0 <= i < events.len() ==> #[trigger] events[i] != CaptureEvent::<S>::Command(
                Some(Command::Resume),
            ),
        event != CaptureEvent::<S>::Command(Some(Command::Resume)),
    ensures
        after_all(start, events).paused,
        !(after_all(start, events).next(event).1 is ReadBlock),
    decreases events.len(),
{
    if events.len() > 0 {
        let earlier = events.drop_last();
        assert(events.last() == events[events.len() - 1]);
        assert forall|i: int| 0 <= i < earlier.len() implies #[trigger] earlier[i]
            != CaptureEvent::<S>::Command(Some(Command::Resume)) by {
            assert(earlier[i] == events[i]);
        }
        paused_capture_reads_nothing(start, earlier, events.last());
    }
}

/// Lost samples are reported when the loss begins, and not again before a look
/// at the stream found none: nothing but such a look reports or forgets a loss.
pub proof fn overrun_is_reported_once<S>(
    state: CaptureModel<S>,
    dropped: usize,
    other: CaptureEvent<S>,
)
    requires
        !(other is Stream),
    ensures
        state.next(CaptureEvent::Stream { error: None, dropped }).1 is Report <==> dropped > 0
            && !state.in_overrun,
        state.next(CaptureEvent::Stream { error: None, dropped }).0.in_overrun <==> dropped > 0,
        state.next(other).0.in_overrun == state.in_overrun,
        !(state.next(other).1 is Report),
{
}

/// The loop ends when it is told to or when the stream fails, and for no other
/// reason.
pub proof fn capture_ends_only_when_told_or_broken<S>(
    state: CaptureModel<S>,
    event: CaptureEvent<S>,
)
    requires
        state.expects(event),
    ensures
        state.next(event).0.phase == Phase::Done <==> event == CaptureEvent::<S>::Command(
            Some(Command::Shutdown),
        ) || event matches CaptureEvent::Stream { error: Some(_), dropped: _ },
        state.next(event).0.phase == Phase::Done <==> state.next(event).1 is Stop || state.next(
            event,
        ).1 is Fail,
{
}

/// The loop always waits for the event that its last action brings about,
/// whatever that turns out to be.
pub proof fn actions_bring_the_expected_events<S>(state: CaptureModel<S>, event: CaptureEvent<S>)
    requires
        state.expects(event),
    ensures
        match state.next(event).1 {
            ActionModel::PollCommand => state.next(event).0.phase == Phase::Commands,
            ActionModel::PollStream => state.next(event).0.phase == Phase::Stream,
            ActionModel::Report(_) => state.next(event).0.phase == Phase::Reporting,
            ActionModel::Sleep(_) => state.next(event).0.phase == Phase::Sleeping,
            ActionModel::ReadBlock(_) => state.next(event).0.phase == Phase::Reading,
            ActionModel::AskResampler => state.next(event).0.phase == Phase::Asking,
            ActionModel::Resample(_) => state.next(event).0.phase == Phase::Resampling,
            ActionModel::Feed(_) => state.next(event).0.phase == Phase::Feeding,
            ActionModel::Stop => state.next(event).0.phase == Phase::Done,
            ActionModel::Fail(_) => state.next(event).0.phase == Phase::Done,
        },
        match state.next(event).1 {
            ActionModel::PollCommand => forall|command: Option<Command>|
                #[trigger] state.next(event).0.expects(CaptureEvent::Command(command)),
            ActionModel::PollStream => forall|error: Option<String>, dropped: usize|
                #[trigger] state.next(event).0.expects(CaptureEvent::Stream { error, dropped }),
            ActionModel::Report(_) => state.next(event).0.expects(CaptureEvent::Reported),
            ActionModel::Sleep(_) => state.next(event).0.expects(CaptureEvent::Woke),
            ActionModel::ReadBlock(_) => forall|block: Option<Vec<S>>|
                #[trigger] state.next(event).0.expects(CaptureEvent::Block(block)),
            ActionModel::AskResampler => forall|n: usize|
                #[trigger] state.next(event).0.expects(CaptureEvent::FramesNeeded(n)),
            ActionModel::Resample(_) => forall|given: Option<Vec<S>>|
                #[trigger] state.next(event).0.expects(CaptureEvent::Resampled(given)),
            ActionModel::Feed(_) => state.next(event).0.expects(CaptureEvent::Fed),
            ActionModel::Stop => true,
            ActionModel::Fail(_) => true,
        },
{
}

/// Frame `i` of interleaved audio. The last one may be incomplete.
pub open spec fn frame<S>(interleaved: Seq<S>, channels: int, i: int) -> Seq<S> {
    if i * channels + channels <= interleaved.len() {
        interleaved.subrange(i * channels, i * channels + channels)
    } else {
        interleaved.subrange(i * channels, interleaved.len() as int)
    }
}

/// The frames of interleaved audio are all of it, in order, one after another:
/// each has a sample of every channel, but for the last, which may have fewer.
pub proof fn frames_are_all_of_the_audio<S>(interleaved: Seq<S>, channels: int, k: int)
    requires
        channels > 0,
        0 <= k < interleaved.len(),
    ensures
        ({
            let count = steps_to_cover(interleaved.len() as int, channels);
            let i = k / channels;
            let j = k % channels;
            &&& 0 <= i < count
            &&& 0 <= j < frame(interleaved, channels, i).len() <= channels
            &&& frame(interleaved, channels, i)[j] == interleaved[k]
            &&& i < count - 1 ==> frame(interleaved, channels, i).len() == channels
            &&& (count - 1) * channels < interleaved.len() <= count * channels
            &&& frame(interleaved, channels, count - 1).len() == interleaved.len() - (count - 1)
                * channels
        }),
{
    let len = interleaved.len() as int;
    let count = steps_to_cover(len, channels);
    let i = k / channels;
    let j = k % channels;
    assert(k == i * channels + j && 0 <= j < channels && i >= 0) by (nonlinear_arith)
        requires
            channels > 0,
            k >= 0,
            i == k / channels,
            j == k % channels,
    ;
    crate::vad::lemma_steps(len, channels, i);
    assert(count >= 1);
    crate::vad::lemma_steps(len, channels, count - 1);
    crate::vad::lemma_steps(len, channels, count);
    assert((count - 1) * channels + channels == count * channels) by (nonlinear_arith);
    if i < count - 1 {
        crate::vad::lemma_steps(len, channels, i + 1);
        assert((i + 1) * channels == i * channels + channels) by (nonlinear_arith);
    }
}

/// What the caller's mix may make of a frame.
pub open spec fn mixed<S, F: Fn(&[S]) -> S>(mix: F, frame: Seq<S>, sample: S) -> bool {
    exists|f: &[S]| f@ == frame && #[trigger] mix.ensures((f,), sample)
}

/// A mixed sample is what the caller's mix gives for the frame itself.
pub proof fn a_frame_is_mixed_as_it_is<S, F: Fn(&[S]) -> S>(mix: F, frame: Seq<S>, sample: S)
    requires
        mixed(mix, frame, sample),
    ensures
        exists|f: &[S]| f@ == frame && #[trigger] mix.ensures((f,), sample),
{
}

/// Mixes interleaved audio down to one channel, frame by frame. Audio of one
/// channel is taken as it is.
///
/// `mix` makes one sample of a frame.
pub fn mix_down<S: Copy, F: Fn(&[S]) -> S>(
    interleaved: &[S],
    channels: usize,
    mix: &F,
) -> (r: Vec<S>)
    requires
        forall|f: &[S]| #[trigger] mix.requires((f,)),
    ensures
        channels <= 1 ==> r@ == interleaved@,
        channels > 1 ==> {
            &&& r@.len() == steps_to_cover(interleaved@.len() as int, channels as int)
            &&& forall|i: int|
                0 <= i < r@.len() ==> mixed(
                    *mix,
                    frame(interleaved@, channels as int, i),
                    #[trigger] r@[i],
                )
        },
{
    let len: usize = interleaved.len();
    if channels <= 1 {
        assert(interleaved@.subrange(0, len as int) =~= interleaved@);
        return copy_range(interleaved, 0, len);
    }
    let mut out: Vec<S> = Vec::new();
    let mut pos: usize = 0;
    assert(0 * channels == 0);
    while pos < len
        invariant
            forall|f: &[S]| #[trigger] mix.requires((f,)),
            channels > 1,
            len == interleaved@.len(),
            pos <= len,
            pos < len ==> pos == out@.len() * channels,
            pos == len ==> out@.len() == steps_to_cover(len as int, channels as int),
            forall|i: int|
                0 <= i < out@.len() ==> mixed(
                    *mix,
                    frame(interleaved@, channels as int, i),
                    #[trigger] out@[i],
                ),
        decreases len - pos,
    {
        let end: usize = if channels <= len - pos { pos + channels } else { len };
        let part = slice_subrange(interleaved, pos, end);
        let sample = mix(part);
        proof {
            let n = out@.len() as int;
            assert(part@ == frame(interleaved@, channels as int, n));
            assert(mixed(*mix, frame(interleaved@, channels as int, n), sample));
            assert((n + 1) * channels == n * channels + channels) by (nonlinear_arith);
            crate::vad::lemma_steps(len as int, channels as int, n);
            crate::vad::lemma_steps(len as int, channels as int, n + 1);
        }
        out.push(sample);
        pos = end;
    }
    out
}

} // verus!

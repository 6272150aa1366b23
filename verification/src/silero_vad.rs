//! Bookkeeping around the Silero voice activity detector.
//!
//! The model says where speech begins and ends. What it does not do is kept
//! here: feeding it whole windows, remembering recent input, putting a
//! pre-roll before each finished segment, and showing the utterance in
//! progress.

use std::collections::VecDeque;

use crate::level::Level;
use crate::samples::{copy_range, drain_front, extend};
use vstd::prelude::*;
use vstd::slice::slice_subrange;

verus! {

/// Samples per second.
pub const SAMPLE_RATE: usize = 16_000;

/// The detector's fixed frame size at 16 kHz.
pub const WINDOW: usize = 512;

/// 0.8 s: a segment's start is placed where the speech probability crossed the
/// threshold, which is after the first soft phonemes. Every utterance is
/// extended backwards by this much so that those are heard too.
pub const PRE_ROLL: usize = 12_800;

/// 0.25 s: detection lags the onset of speech by this much.
pub const MIN_SPEECH: usize = 4_000;

/// Extra history kept beyond the longest possible utterance, so that a
/// segment's pre-roll is still available when the segment is finished.
pub const HISTORY_MARGIN_SECS: usize = 2;

/// Trimming the history with every window would be quadratic; it is trimmed in
/// batches of four seconds.
pub const HISTORY_TRIM_SLACK: usize = 64_000;

/// A finished stretch of speech, as the detector reports it.
pub struct Segment<S> {
    /// Stream position of the first sample.
    pub start: i64,
    pub samples: Vec<S>,
}

/// What the detector says once it has taken a window in.
pub struct Report<S> {
    /// Whether speech is being detected.
    pub detected: bool,
    /// The segments that are finished, oldest first.
    pub segments: Vec<Segment<S>>,
}

/// `a` or `b`, whichever is larger.
pub open spec fn larger(a: int, b: int) -> int {
    if a < b {
        b
    } else {
        a
    }
}

/// `a` or `b`, whichever is smaller.
pub open spec fn smaller(a: int, b: int) -> int {
    if a < b {
        a
    } else {
        b
    }
}

/// What the bookkeeping holds.
#[verifier::ext_equal]
pub struct SileroModel<S> {
    /// Samples that do not form a whole window yet.
    pub carry: Seq<S>,
    /// Recent input: stream positions `history_start` up to `fed`.
    pub history: Seq<S>,
    pub history_start: int,
    /// How much history is kept when it is trimmed.
    pub history_cap: int,
    /// Samples given to the detector so far.
    pub fed: int,
    pub speaking: bool,
    /// Stream position where the utterance in progress begins, pre-roll
    /// included.
    pub speech_start: int,
    /// Finished utterances that were not handed out yet.
    pub pending: Seq<Seq<S>>,
}

impl<S> SileroModel<S> {
    /// Before any audio.
    pub open spec fn fresh(max_speech_secs: int) -> SileroModel<S> {
        SileroModel {
            carry: Seq::empty(),
            history: Seq::empty(),
            history_start: 0,
            history_cap: (max_speech_secs + HISTORY_MARGIN_SECS) * SAMPLE_RATE,
            fed: 0,
            speaking: false,
            speech_start: 0,
            pending: Seq::empty(),
        }
    }

    /// What holds at every time between calls.
    pub open spec fn inv(self) -> bool {
        &&& self.carry.len() < WINDOW
        &&& self.tracking()
    }

    /// What holds at every time: the history ends where the detector is, and
    /// nothing of it is missing unless the kept length is there.
    pub open spec fn tracking(self) -> bool {
        &&& 0 <= self.history_cap <= usize::MAX - HISTORY_TRIM_SLACK
        &&& self.history_start >= 0
        &&& self.fed == self.history_start + self.history.len()
        &&& self.history.len() <= self.history_cap + HISTORY_TRIM_SLACK
        &&& self.history_start > 0 ==> self.history.len() >= self.history_cap
        &&& 0 <= self.speech_start <= self.fed
    }

    /// The window is in the history, which is trimmed when it has grown by the
    /// slack.
    pub open spec fn remembering(self, window: Seq<S>) -> SileroModel<S> {
        let grown = self.history + window;
        let excess = if grown.len() > self.history_cap + HISTORY_TRIM_SLACK {
            grown.len() - self.history_cap
        } else {
            0
        };
        SileroModel {
            history: grown.subrange(excess, grown.len() as int),
            history_start: self.history_start + excess,
            fed: self.fed + window.len(),
            ..self
        }
    }

    /// The detector's verdict is noted. Where speech is newly detected, the
    /// utterance is taken to begin before the lag of the detection and the
    /// pre-roll.
    pub open spec fn noting(self, window_len: int, detected: bool) -> SileroModel<S> {
        SileroModel {
            speech_start: if detected && !self.speaking {
                larger(self.fed - (window_len + MIN_SPEECH + PRE_ROLL), 0)
            } else {
                self.speech_start
            },
            speaking: detected,
            ..self
        }
    }

    /// Where a segment's pre-roll begins: as far back as the history reaches,
    /// at most `PRE_ROLL` samples before the segment.
    pub open spec fn pre_roll_from(self, start: int) -> int {
        larger(larger(larger(start, 0) - PRE_ROLL, 0), self.history_start)
    }

    /// Where a segment's pre-roll ends: at the segment.
    pub open spec fn pre_roll_to(self, start: int) -> int {
        smaller(larger(larger(start, 0), self.pre_roll_from(start)), self.fed)
    }

    /// Whether a segment begins no later than its pre-roll allows.
    pub open spec fn admits(self, start: int) -> bool {
        start <= self.fed + PRE_ROLL
    }

    /// A segment with its pre-roll.
    pub open spec fn padded(self, segment: Segment<S>) -> Seq<S> {
        self.history.subrange(
            self.pre_roll_from(segment.start as int) - self.history_start,
            self.pre_roll_to(segment.start as int) - self.history_start,
        ) + segment.samples@
    }

    /// The state after one window and what the detector said of it.
    pub open spec fn absorbed(self, window: Seq<S>, report: Report<S>) -> SileroModel<S> {
        let noted = self.remembering(window).noting(window.len() as int, report.detected);
        SileroModel {
            pending: noted.pending + Seq::new(
                report.segments@.len(),
                |i: int| noted.padded(report.segments@[i]),
            ),
            ..noted
        }
    }

    /// The state after as many windows of `data` as there are reports.
    pub open spec fn absorbed_all(self, data: Seq<S>, reports: Seq<Report<S>>) -> SileroModel<S>
        decreases reports.len(),
    {
        if reports.len() == 0 {
            self
        } else {
            let n = reports.len() - 1;
            self.absorbed_all(data, reports.drop_last()).absorbed(
                data.subrange(n * WINDOW, n * WINDOW + WINDOW),
                reports.last(),
            )
        }
    }

    /// How many whole windows there are once `len` more samples are in.
    pub open spec fn windows_due(self, len: int) -> int {
        (self.carry.len() + len) / WINDOW as int
    }

    /// The windows that a chunk completes.
    pub open spec fn due(self, samples: Seq<S>) -> Seq<Seq<S>> {
        Seq::new(
            self.windows_due(samples.len() as int) as nat,
            |i: int| (self.carry + samples).subrange(i * WINDOW, i * WINDOW + WINDOW),
        )
    }

    /// The utterances that a chunk finishes.
    pub open spec fn finished(self, samples: Seq<S>, reports: Seq<Report<S>>) -> Seq<Seq<S>> {
        let pending = self.fed_with(samples, reports).pending;
        pending.subrange(self.pending.len() as int, pending.len() as int)
    }

    /// The state after a chunk, before anything is handed out.
    pub open spec fn fed_with(self, samples: Seq<S>, reports: Seq<Report<S>>) -> SileroModel<S> {
        let data = self.carry + samples;
        SileroModel {
            carry: data.subrange(reports.len() * WINDOW, data.len() as int),
            ..self.absorbed_all(data, reports)
        }
    }

    /// The state after a chunk: the oldest finished utterance is handed out.
    pub open spec fn after(self, samples: Seq<S>, reports: Seq<Report<S>>) -> SileroModel<S> {
        let fed = self.fed_with(samples, reports);
        SileroModel {
            pending: if fed.pending.len() == 0 {
                fed.pending
            } else {
                fed.pending.subrange(1, fed.pending.len() as int)
            },
            ..fed
        }
    }

    /// What a chunk hands out.
    pub open spec fn output(self, samples: Seq<S>, reports: Seq<Report<S>>) -> Option<Seq<S>> {
        let fed = self.fed_with(samples, reports);
        if fed.pending.len() == 0 {
            None
        } else {
            Some(fed.pending[0])
        }
    }

    /// The utterance in progress, as far as the history reaches back.
    pub open spec fn current(self) -> Seq<S> {
        if self.speaking {
            self.history.subrange(
                larger(self.speech_start, self.history_start) - self.history_start,
                self.history.len() as int,
            )
        } else {
            Seq::empty()
        }
    }
}

/// Whether each report speaks only of segments that the stream can hold, when
/// `fed` samples were given to the detector before the first window.
pub open spec fn reports_fit<S>(fed: int, reports: Seq<Report<S>>) -> bool {
    forall|n: int, i: int|
        0 <= n < reports.len() && 0 <= i < reports[n].segments@.len() ==> (
        #[trigger] reports[n].segments@[i]).start <= fed + (n + 1) * WINDOW + PRE_ROLL
}

/// Bookkeeping around the Silero voice activity detector.
pub struct SileroVad<S> {
    carry: Vec<S>,
    history: Vec<S>,
    history_start: usize,
    history_cap: usize,
    fed: usize,
    speaking: bool,
    speech_start: usize,
    pending: VecDeque<Vec<S>>,
}

impl<S> View for SileroVad<S> {
    type V = SileroModel<S>;

    closed spec fn view(&self) -> SileroModel<S> {
        SileroModel {
            carry: self.carry@,
            history: self.history@,
            history_start: self.history_start as int,
            history_cap: self.history_cap as int,
            fed: self.fed as int,
            speaking: self.speaking,
            speech_start: self.speech_start as int,
            pending: Seq::new(self.pending@.len(), |i: int| self.pending@[i]@),
        }
    }
}

impl<S: Copy> SileroVad<S> {
    /// Bookkeeping for utterances of up to `max_speech_secs`.
    pub fn new(max_speech_secs: u32) -> (r: Self)
        requires
            (max_speech_secs + HISTORY_MARGIN_SECS) * SAMPLE_RATE + HISTORY_TRIM_SLACK
                <= usize::MAX,
        ensures
            r@ == SileroModel::<S>::fresh(max_speech_secs as int),
            r@.inv(),
    {
        let history_cap: usize = (max_speech_secs as usize + HISTORY_MARGIN_SECS) * SAMPLE_RATE;
        let r = SileroVad {
            carry: Vec::new(),
            history: Vec::new(),
            history_start: 0,
            history_cap,
            fed: 0,
            speaking: false,
            speech_start: 0,
            pending: VecDeque::new(),
        };
        assert(r@ =~= SileroModel::<S>::fresh(max_speech_secs as int));
        r
    }

    /// How many whole windows there are once `len` more samples are in.
    pub fn windows_due(&self, len: usize) -> (r: usize)
        requires
            self@.inv(),
            self@.carry.len() + len <= usize::MAX,
        ensures
            r == self@.windows_due(len as int),
    {
        (self.carry.len() + len) / WINDOW
    }

    /// Takes in a window and what the detector said of it.
    pub fn feed_window(&mut self, window: &[S], report: &Report<S>)
        requires
            old(self)@.tracking(),
            old(self)@.fed + window@.len() <= usize::MAX,
            forall|i: int|
                0 <= i < report.segments@.len() ==> (#[trigger] report.segments@[i]).start
                    <= old(self)@.fed + window@.len() + PRE_ROLL,
        ensures
            final(self)@ == old(self)@.absorbed(window@, *report),
            final(self)@.tracking(),
    {
        let ghost before = self@;
        extend(&mut self.history, window);
        self.fed = self.fed + window.len();
        if self.history.len() > self.history_cap + HISTORY_TRIM_SLACK {
            let excess: usize = self.history.len() - self.history_cap;
            let _ = drain_front(&mut self.history, excess);
            self.history_start = self.history_start + excess;
        }
        assert(self@ =~= before.remembering(window@));
        if report.detected && !self.speaking {
            let back: usize = window.len();
            self.speech_start = if self.fed - back > MIN_SPEECH + PRE_ROLL {
                self.fed - back - (MIN_SPEECH + PRE_ROLL)
            } else {
                0
            };
        }
        self.speaking = report.detected;
        let ghost noted = before.remembering(window@).noting(
            window@.len() as int,
            report.detected,
        );
        assert(self@ =~= noted);
        let mut i: usize = 0;
        while i < report.segments.len()
            invariant
                i <= report.segments@.len(),
                noted.tracking(),
                forall|k: int|
                    0 <= k < report.segments@.len() ==> noted.admits(
                        (#[trigger] report.segments@[k]).start as int,
                    ),
                self@ == (SileroModel { pending: self@.pending, ..noted }),
                self@.pending == noted.pending + Seq::new(
                    i as nat,
                    |k: int| noted.padded(report.segments@[k]),
                ),
            decreases report.segments@.len() - i,
        {
            let ghost pending = self@.pending;
            let utterance = self.with_pre_roll(&report.segments[i]);
            self.pending.push_back(utterance);
            i += 1;
            assert(self@.pending =~= pending.push(noted.padded(report.segments@[i - 1])));
            assert(self@.pending =~= noted.pending + Seq::new(
                i as nat,
                |k: int| noted.padded(report.segments@[k]),
            ));
        }
        assert(self@ =~= before.absorbed(window@, *report));
    }

    /// A segment with its pre-roll.
    fn with_pre_roll(&self, segment: &Segment<S>) -> (r: Vec<S>)
        requires
            self@.tracking(),
            self@.admits(segment.start as int),
        ensures
            r@ == self@.padded(*segment),
    {
        let start: u64 = if segment.start < 0 { 0 } else { segment.start as u64 };
        let wanted: usize = if start > PRE_ROLL as u64 { (start - PRE_ROLL as u64) as usize } else { 0 };
        let from: usize = if wanted < self.history_start { self.history_start } else { wanted };
        let to: usize = if start < from as u64 {
            from
        } else if start < self.fed as u64 {
            start as usize
        } else {
            self.fed
        };
        let mut utterance = copy_range(
            self.history.as_slice(),
            from - self.history_start,
            to - self.history_start,
        );
        extend(&mut utterance, segment.samples.as_slice());
        utterance
    }
}

/// Window `n` of `reports.len()` windows: the state before it is the state
/// after the first `n` reports.
proof fn lemma_absorbed_step<S>(
    start: SileroModel<S>,
    data: Seq<S>,
    reports: Seq<Report<S>>,
    n: int,
)
    requires
        0 <= n < reports.len(),
    ensures
        start.absorbed_all(data, reports.take(n + 1)) == start.absorbed_all(
            data,
            reports.take(n),
        ).absorbed(data.subrange(n * WINDOW, n * WINDOW + WINDOW), reports[n]),
{
    assert(reports.take(n + 1).drop_last() =~= reports.take(n));
    assert(reports.take(n + 1).last() == reports[n]);
}

impl<S: Copy> SileroVad<S> {
    /// The windows that `samples` completes, for the detector.
    pub fn due_windows(&self, samples: &[S]) -> (r: Vec<Vec<S>>)
        requires
            self@.inv(),
            self@.carry.len() + samples@.len() <= usize::MAX,
        ensures
            r@.map_values(|w: Vec<S>| w@) == self@.due(samples@),
    {
        let mut data: Vec<S> = copy_range(self.carry.as_slice(), 0, self.carry.len());
        assert(self.carry@.subrange(0, self.carry@.len() as int) =~= self.carry@);
        extend(&mut data, samples);
        let mut out: Vec<Vec<S>> = Vec::new();
        let mut offset: usize = 0;
        while data.len() - offset >= WINDOW
            invariant
                data@ == self@.carry + samples@,
                offset <= data@.len(),
                offset == out@.len() * WINDOW,
                forall|i: int|
                    0 <= i < out@.len() ==> (#[trigger] out@[i])@ == data@.subrange(
                        i * WINDOW,
                        i * WINDOW + WINDOW,
                    ),
            decreases data@.len() - offset,
        {
            out.push(copy_range(data.as_slice(), offset, offset + WINDOW));
            offset = offset + WINDOW;
        }
        assert(out@.map_values(|w: Vec<S>| w@) =~= self@.due(samples@));
        out
    }

    /// Feeds a chunk of audio, with what the detector said of each window that
    /// the chunk completes. Hands out the oldest finished utterance.
    pub fn process(&mut self, samples: &[S], reports: &Vec<Report<S>>) -> (r: Option<Vec<S>>)
        requires
            old(self)@.inv(),
            old(self)@.carry.len() + samples@.len() <= usize::MAX,
            old(self)@.fed + old(self)@.carry.len() + samples@.len() <= usize::MAX,
            reports@.len() == old(self)@.windows_due(samples@.len() as int),
            reports_fit(old(self)@.fed, reports@),
        ensures
            final(self)@ == old(self)@.after(samples@, reports@),
            final(self)@.inv(),
            crate::vad::hands_out(r, old(self)@.output(samples@, reports@)),
    {
        let ghost before = self@;
        let ghost data = before.carry + samples@;
        extend(&mut self.carry, samples);
        let mut offset: usize = 0;
        let mut n: usize = 0;
        assert(reports@.take(0) =~= Seq::empty());
        assert(self@ =~= (SileroModel { carry: data, ..before }));
        while self.carry.len() - offset >= WINDOW
            invariant
                before.inv(),
                before.fed + data.len() <= usize::MAX,
                data.len() <= usize::MAX,
                reports@.len() == data.len() as int / WINDOW as int,
                reports_fit(before.fed, reports@),
                offset == n * WINDOW,
                offset <= data.len(),
                n <= reports@.len(),
                self@.carry == data,
                self@ == (SileroModel {
                    carry: data,
                    ..before.absorbed_all(data, reports@.take(n as int))
                }),
                self@.tracking(),
                self@.fed == before.fed + offset,
            decreases data.len() - offset,
        {
            let window = copy_range(self.carry.as_slice(), offset, offset + WINDOW);
            let ghost middle = before.absorbed_all(data, reports@.take(n as int));
            proof {
                assert(n < reports@.len());
                assert forall|i: int| 0 <= i < reports@[n as int].segments@.len() implies (
                #[trigger] reports@[n as int].segments@[i]).start <= self@.fed + WINDOW
                    + PRE_ROLL by {
                    assert((n + 1) * WINDOW == n * WINDOW + WINDOW);
                }
                lemma_absorbed_step(before, data, reports@, n as int);
            }
            self.feed_window(window.as_slice(), &reports[n]);
            proof {
                assert(window@ == data.subrange(n * WINDOW, n * WINDOW + WINDOW));
                assert(self@ =~= (SileroModel {
                    carry: data,
                    ..middle.absorbed(window@, reports@[n as int])
                }));
            }
            offset = offset + WINDOW;
            n = n + 1;
        }
        assert(reports@.take(n as int) =~= reports@);
        let _ = drain_front(&mut self.carry, offset);
        assert(self@ =~= before.fed_with(samples@, reports@));
        let out = self.pending.pop_front();
        assert(self@ =~= before.after(samples@, reports@));
        out
    }

    /// Whether speech is being detected.
    pub fn is_speaking(&self) -> (r: bool)
        ensures
            r == self@.speaking,
    {
        self.speaking
    }

    /// The utterance in progress, as far as the history reaches back.
    pub fn current_speech(&self) -> (r: &[S])
        requires
            self@.tracking(),
        ensures
            r@ == self@.current(),
    {
        let len: usize = self.history.len();
        let from: usize = if !self.speaking {
            len
        } else if self.speech_start < self.history_start {
            0
        } else {
            self.speech_start - self.history_start
        };
        assert(!self.speaking ==> self.history@.subrange(len as int, len as int) =~= Seq::empty());
        slice_subrange(self.history.as_slice(), from, len)
    }

    /// The model has a threshold of its own: the energy threshold says nothing
    /// to it.
    pub fn set_energy_threshold(&mut self, threshold: Level)
        ensures
            *final(self) == *old(self),
    {
    }
}

} // verus!

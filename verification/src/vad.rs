//! Energy-based voice activity detection.
//!
//! Audio is cut into utterances by watching the loudness of each chunk. The
//! loudness itself is measured by the caller; every decision drawn from it is
//! made here.

use std::collections::VecDeque;

use crate::level::{Level, SINGLE_MAX};
use crate::samples::{drain_front, extend, last_n};
use vstd::prelude::*;
use vstd::slice::slice_subrange;

verus! {

pub const SILENCE_DURATION_MS: u32 = 800;

pub const MIN_SPEECH_DURATION_MS: u32 = 300;

pub const PRE_SPEECH_DURATION_MS: u32 = 200;

/// Length of the windows in which a forced split looks for quiet.
pub const SPLIT_WINDOW_MS: u32 = 50;

/// Seconds at the end of the buffer in which a forced split looks for quiet.
pub const SPLIT_SEARCH_SECS: u32 = 2;

/// The number of whole samples in `ms` milliseconds.
pub open spec fn samples_in(sample_rate: int, ms: int) -> int {
    sample_rate * ms / 1000
}

/// What a detector is set to and what it holds.
#[verifier::ext_equal]
pub struct VadModel<S> {
    pub sample_rate: int,
    /// A chunk at least this loud is voice.
    pub threshold: Level,
    /// An utterance that reaches this length is split.
    pub max_duration: int,
    /// Silence of this length ends an utterance.
    pub silence_duration: int,
    pub speaking: bool,
    /// Length of the silence that the utterance in progress ends with.
    pub silence: int,
    /// The utterance in progress.
    pub speech: Seq<S>,
    /// The audio just before the next utterance.
    pub pre_speech: Seq<S>,
    /// Whether the last chunk made a forced split.
    pub was_split: bool,
}

impl<S> VadModel<S> {
    /// A detector that has heard nothing.
    pub open spec fn fresh(
        sample_rate: int,
        threshold: Level,
        max_duration_secs: int,
        silence_duration_ms: int,
    ) -> VadModel<S> {
        VadModel {
            sample_rate,
            threshold,
            max_duration: sample_rate * max_duration_secs,
            silence_duration: samples_in(sample_rate, silence_duration_ms),
            speaking: false,
            silence: 0,
            speech: Seq::empty(),
            pre_speech: Seq::empty(),
            was_split: false,
        }
    }

    /// Shorter utterances are noise.
    pub open spec fn min_speech(self) -> int {
        samples_in(self.sample_rate, MIN_SPEECH_DURATION_MS as int)
    }

    /// How much audio from before an utterance is kept: never less than one
    /// sample.
    pub open spec fn pre_speech_limit(self) -> int {
        let capacity = samples_in(self.sample_rate, PRE_SPEECH_DURATION_MS as int);
        if capacity < 1 {
            1
        } else {
            capacity
        }
    }

    /// What holds of every detector at every time.
    pub open spec fn inv(self) -> bool {
        &&& 0 <= self.sample_rate <= u32::MAX
        &&& 0 <= self.silence <= self.speech.len()
        &&& !self.speaking ==> self.speech.len() == 0 && self.silence == 0
        &&& self.pre_speech.len() <= self.pre_speech_limit()
    }

    /// Whether a chunk of this loudness counts as voice.
    pub open spec fn is_voice(self, level: Level) -> bool {
        self.threshold.at_most(level)
    }

    /// The detector after a chunk has been taken in, before anything is
    /// handed out.
    pub open spec fn heard(self, samples: Seq<S>, voice: bool) -> VadModel<S> {
        if voice {
            VadModel {
                speaking: true,
                silence: 0,
                speech: (if self.speaking {
                    self.speech
                } else {
                    self.pre_speech
                }) + samples,
                was_split: false,
                ..self
            }
        } else if self.speaking {
            VadModel {
                silence: self.silence + samples.len(),
                speech: self.speech + samples,
                was_split: false,
                ..self
            }
        } else {
            VadModel {
                pre_speech: last_n(self.pre_speech + samples, self.pre_speech_limit()),
                was_split: false,
                ..self
            }
        }
    }

    /// Whether a chunk of silence ends the utterance in progress.
    pub open spec fn ends(self, samples: Seq<S>, voice: bool) -> bool {
        !voice && self.speaking && self.silence + samples.len() >= self.silence_duration
    }

    /// Whether the utterance in progress has grown too long.
    pub open spec fn overlong(self) -> bool {
        self.speaking && self.speech.len() >= self.max_duration
    }

    /// What a chunk calls for.
    pub open spec fn outcome(self, samples: Seq<S>, voice: bool) -> Heard {
        if self.ends(samples, voice) {
            Heard::Ended
        } else if self.heard(samples, voice).overlong() {
            Heard::SplitDue
        } else {
            Heard::Nothing
        }
    }

    /// The detector with the utterance in progress closed.
    pub open spec fn closed(self) -> VadModel<S> {
        VadModel {
            speaking: false,
            silence: 0,
            speech: Seq::empty(),
            pre_speech: Seq::empty(),
            was_split: false,
            ..self
        }
    }

    /// What closing the utterance in progress hands out: the whole of it, when
    /// the part before the trailing silence is long enough.
    pub open spec fn closing(self) -> Option<Seq<S>> {
        if self.speech.len() - self.silence >= self.min_speech() {
            Some(self.speech)
        } else {
            None
        }
    }

    /// The detector with the first `at` samples of the utterance split off.
    pub open spec fn split(self, at: int) -> VadModel<S> {
        VadModel {
            silence: 0,
            speech: self.speech.subrange(at, self.speech.len() as int),
            pre_speech: Seq::empty(),
            was_split: true,
            ..self
        }
    }

    /// What splitting the utterance in progress at `at` hands out.
    pub open spec fn splitting(self, at: int) -> Option<Seq<S>> {
        if at >= self.min_speech() {
            Some(self.speech.subrange(0, at))
        } else {
            None
        }
    }

    /// Where the utterance in progress is split, given how loud each of its
    /// windows is: after the quietest, or at the end where none is quiet.
    pub open spec fn split_point(self, levels: Seq<Level>) -> int {
        match quietest(levels) {
            Some(i) => window_start(self.speech.len() as int, self.sample_rate, i) + window_len(
                self.sample_rate,
            ),
            None => self.speech.len() as int,
        }
    }

    /// The samples of the `i`th window of the utterance in progress.
    pub open spec fn window(self, i: int) -> Seq<S> {
        let from = window_start(self.speech.len() as int, self.sample_rate, i);
        self.speech.subrange(from, from + window_len(self.sample_rate))
    }

    /// The detector after a whole chunk, given how loud each window of an
    /// overlong utterance is.
    pub open spec fn after(self, samples: Seq<S>, voice: bool, levels: Seq<Level>) -> VadModel<S> {
        let heard = self.heard(samples, voice);
        match self.outcome(samples, voice) {
            Heard::Nothing => heard,
            Heard::Ended => heard.closed(),
            Heard::SplitDue => heard.split(heard.split_point(levels)),
        }
    }

    /// What a whole chunk hands out, given the same.
    pub open spec fn output(self, samples: Seq<S>, voice: bool, levels: Seq<Level>) -> Option<
        Seq<S>,
    > {
        let heard = self.heard(samples, voice);
        match self.outcome(samples, voice) {
            Heard::Nothing => None,
            Heard::Ended => heard.closing(),
            Heard::SplitDue => heard.splitting(heard.split_point(levels)),
        }
    }
}

/// What a chunk calls for.
#[derive(Clone, Copy, Debug, PartialEq, Eq, Structural)]
pub enum Heard {
    /// Nothing is due.
    Nothing,
    /// The utterance in progress is over.
    Ended,
    /// The utterance in progress is too long and has to be split.
    SplitDue,
}

/// The length of a split window.
pub open spec fn window_len(sample_rate: int) -> int {
    samples_in(sample_rate, SPLIT_WINDOW_MS as int)
}

/// The distance from one split window to the next.
pub open spec fn window_step(sample_rate: int) -> int {
    window_len(sample_rate) / 2
}

/// Where the search for quiet begins in a buffer of `len` samples.
pub open spec fn search_start(len: int, sample_rate: int) -> int {
    if sample_rate * SPLIT_SEARCH_SECS < len {
        len - sample_rate * SPLIT_SEARCH_SECS
    } else {
        0
    }
}

/// Where the `i`th split window begins.
pub open spec fn window_start(len: int, sample_rate: int, i: int) -> int {
    search_start(len, sample_rate) + i * window_step(sample_rate)
}

/// The smallest number of steps that reach or pass `distance`.
pub open spec fn steps_to_cover(distance: int, step: int) -> int {
    if distance <= 0 {
        0
    } else {
        (distance + step - 1) / step
    }
}

/// How many split windows there are in a buffer of `len` samples: every one
/// that ends before the last sample.
pub open spec fn window_count(len: int, sample_rate: int) -> int {
    steps_to_cover(
        len - window_len(sample_rate) - search_start(len, sample_rate),
        window_step(sample_rate),
    )
}

/// Whether the search for quiet makes headway in a buffer of `len` samples:
/// windows so short that they do not move on rule it out.
pub open spec fn searchable(len: int, sample_rate: int) -> bool {
    len - window_len(sample_rate) - search_start(len, sample_rate) > 0 ==> window_step(sample_rate)
        > 0
}

/// Whether `levels[i]` is the first of the quietest levels.
pub open spec fn first_quietest(levels: Seq<Level>, i: int) -> bool {
    &&& 0 <= i < levels.len()
    &&& levels[i].below(Level::max_finite())
    &&& forall|j: int| 0 <= j < levels.len() ==> !(#[trigger] levels[j]).below(levels[i])
    &&& forall|j: int| 0 <= j < i ==> !(#[trigger] levels[j]).at_most(levels[i])
}

/// The index of the first of the quietest levels. A level that is not a
/// number, infinite, or the largest finite one counts as no level at all.
pub open spec fn quietest(levels: Seq<Level>) -> Option<int> {
    if exists|i: int| first_quietest(levels, i) {
        Some(choose|i: int| first_quietest(levels, i))
    } else {
        None
    }
}

/// What the caller's measure may say of a run of samples.
pub open spec fn measured<S, F: Fn(&[S]) -> Level>(
    measure: F,
    samples: Seq<S>,
    level: Level,
) -> bool {
    exists|window: &[S]| window@ == samples && #[trigger] measure.ensures((window,), level)
}

/// Whether the caller's measure takes any run of samples.
pub open spec fn measures_all<S, F: Fn(&[S]) -> Level>(measure: F) -> bool {
    forall|window: &[S]| #[trigger] measure.requires((window,))
}

/// Whether the search for quiet makes headway, should the chunk call for a
/// split.
pub open spec fn can_be_processed<S, F: Fn(&[S]) -> Level>(
    vad: VadModel<S>,
    samples: Seq<S>,
    measure: F,
) -> bool {
    forall|level: Level| #[trigger]
        measured(measure, samples, level) && vad.outcome(samples, vad.is_voice(level))
            == Heard::SplitDue ==> searchable(
            vad.heard(samples, vad.is_voice(level)).speech.len() as int,
            vad.sample_rate,
        )
}

/// Whether `levels` is what the caller's measure said of the split windows of
/// the utterance in progress, one by one.
pub open spec fn window_levels_measured<S, F: Fn(&[S]) -> Level>(
    vad: VadModel<S>,
    measure: F,
    levels: Seq<Level>,
) -> bool {
    &&& levels.len() == window_count(vad.speech.len() as int, vad.sample_rate)
    &&& forall|i: int|
        0 <= i < levels.len() ==> measured(measure, vad.window(i), #[trigger] levels[i])
}

/// Counting steps: `i` steps stay short of `distance` exactly as long as `i`
/// is short of the number of steps that cover it.
pub proof fn lemma_steps(distance: int, step: int, i: int)
    requires
        step > 0,
        distance > 0,
        i >= 0,
    ensures
        i * step < distance <==> i < steps_to_cover(distance, step),
{
    let n = (distance + step - 1) / step;
    assert(n * step <= distance + step - 1 < n * step + step) by (nonlinear_arith)
        requires
            n == (distance + step - 1) / step,
            step > 0,
    ;
    if i < n {
        assert(i * step + step <= n * step) by (nonlinear_arith)
            requires
                i + 1 <= n,
                step > 0,
        ;
    } else {
        assert(i * step >= n * step) by (nonlinear_arith)
            requires
                i >= n,
                step > 0,
        ;
    }
}

/// Every split window lies inside the buffer.
pub proof fn windows_lie_inside(len: int, sample_rate: int, i: int)
    requires
        sample_rate >= 0,
        len >= 0,
        searchable(len, sample_rate),
        0 <= i < window_count(len, sample_rate),
    ensures
        0 <= window_start(len, sample_rate, i),
        window_start(len, sample_rate, i) + window_len(sample_rate) < len,
{
    let step = window_step(sample_rate);
    lemma_steps(
        len - window_len(sample_rate) - search_start(len, sample_rate),
        step,
        i,
    );
    assert(i * step >= 0) by (nonlinear_arith)
        requires
            i >= 0,
            step >= 0,
    ;
}

/// There is at most one first quietest level.
proof fn lemma_quietest_is_unique(levels: Seq<Level>, i: int, j: int)
    requires
        first_quietest(levels, i),
        first_quietest(levels, j),
    ensures
        i == j,
{
    if i < j {
        assert(!levels[i].at_most(levels[j]));
        assert(!levels[j].below(levels[i]));
    } else if j < i {
        assert(!levels[j].at_most(levels[i]));
        assert(!levels[i].below(levels[j]));
    }
}

/// Finds the first of the quietest levels.
pub fn find_quietest(levels: &[Level]) -> (r: Option<usize>)
    ensures
        match r {
            Some(i) => quietest(levels@) == Some(i as int) && first_quietest(levels@, i as int),
            None => {
                &&& quietest(levels@) is None
                &&& forall|j: int|
                    0 <= j < levels@.len() ==> !(#[trigger] levels@[j]).below(Level::max_finite())
            },
        },
{
    let mut best: Option<usize> = None;
    let mut best_level: Level = Level { bits: SINGLE_MAX };
    let mut i: usize = 0;
    while i < levels.len()
        invariant
            i <= levels@.len(),
            !best_level.is_nan(),
            match best {
                Some(b) => {
                    &&& b < i
                    &&& levels@[b as int] == best_level
                    &&& best_level.below(Level::max_finite())
                    &&& forall|j: int| 0 <= j < b ==> !(#[trigger] levels@[j]).at_most(best_level)
                },
                None => best_level == Level::max_finite(),
            },
            forall|j: int| 0 <= j < i ==> !(#[trigger] levels@[j]).below(best_level),
        decreases levels@.len() - i,
    {
        let level = levels[i];
        if level.is_below(best_level) {
            best_level = level;
            best = Some(i);
        }
        i += 1;
    }
    proof {
        match best {
            Some(b) => {
                assert(first_quietest(levels@, b as int));
                lemma_quietest_is_unique(
                    levels@,
                    b as int,
                    choose|k: int| first_quietest(levels@, k),
                );
            },
            None => {},
        }
    }
    best
}

/// Energy-based voice activity detection.
///
/// Cuts audio into utterances by watching the loudness of each chunk. Hands
/// an utterance out when enough silence follows speech, or when the utterance
/// has grown too long.
pub struct EnergyVad<S> {
    sample_rate: u32,
    energy_threshold: Level,
    max_duration_samples: u64,
    silence_duration_samples: u64,
    min_speech_samples: usize,
    pre_speech_capacity: usize,
    is_speaking: bool,
    silence_count: usize,
    speech_buffer: Vec<S>,
    pre_speech_buffer: VecDeque<S>,
    force_split_used: bool,
}

impl<S> View for EnergyVad<S> {
    type V = VadModel<S>;

    closed spec fn view(&self) -> VadModel<S> {
        VadModel {
            sample_rate: self.sample_rate as int,
            threshold: self.energy_threshold,
            max_duration: self.max_duration_samples as int,
            silence_duration: self.silence_duration_samples as int,
            speaking: self.is_speaking,
            silence: self.silence_count as int,
            speech: self.speech_buffer@,
            pre_speech: self.pre_speech_buffer@,
            was_split: self.force_split_used,
        }
    }
}

impl<S: Copy> EnergyVad<S> {
    /// Whether the detector is in a state that it can be in.
    pub closed spec fn wf(&self) -> bool {
        &&& self@.inv()
        &&& self.min_speech_samples == self@.min_speech()
        &&& self.pre_speech_capacity == samples_in(
            self.sample_rate as int,
            PRE_SPEECH_DURATION_MS as int,
        )
    }

    /// What holds of every detector at every time.
    pub proof fn keeps_inv(&self)
        requires
            self.wf(),
        ensures
            self@.inv(),
    {
    }

    /// A detector with the usual end of utterance: 800 ms of silence.
    pub fn new(sample_rate: u32, energy_threshold: Level, max_duration_secs: u32) -> (r: Self)
        ensures
            r.wf(),
            r@ == VadModel::<S>::fresh(
                sample_rate as int,
                energy_threshold,
                max_duration_secs as int,
                SILENCE_DURATION_MS as int,
            ),
            r@.silence_duration == sample_rate as int * 800 / 1000,
    {
        Self::with_silence(sample_rate, energy_threshold, max_duration_secs, SILENCE_DURATION_MS)
    }

    /// A detector in which `silence_duration_ms` of silence ends an utterance.
    pub fn with_silence(
        sample_rate: u32,
        energy_threshold: Level,
        max_duration_secs: u32,
        silence_duration_ms: u32,
    ) -> (r: Self)
        ensures
            r.wf(),
            r@ == VadModel::<S>::fresh(
                sample_rate as int,
                energy_threshold,
                max_duration_secs as int,
                silence_duration_ms as int,
            ),
    {
        let rate: u64 = sample_rate as u64;
        proof {
            lemma_product_fits(sample_rate, max_duration_secs);
            lemma_product_fits(sample_rate, silence_duration_ms);
            assert(rate * MIN_SPEECH_DURATION_MS == rate * 300);
            assert(rate * PRE_SPEECH_DURATION_MS == rate * 200);
        }
        let silence_duration_samples: u64 = rate * silence_duration_ms as u64 / 1000;
        let min_speech_samples: usize = (rate * MIN_SPEECH_DURATION_MS as u64 / 1000) as usize;
        let pre_speech_capacity: usize = (rate * PRE_SPEECH_DURATION_MS as u64 / 1000) as usize;
        let max_duration_samples: u64 = rate * max_duration_secs as u64;
        let r = EnergyVad {
            sample_rate,
            energy_threshold,
            max_duration_samples,
            silence_duration_samples,
            min_speech_samples,
            pre_speech_capacity,
            is_speaking: false,
            silence_count: 0,
            speech_buffer: Vec::new(),
            pre_speech_buffer: VecDeque::with_capacity(pre_speech_capacity),
            force_split_used: false,
        };
        assert(r@ =~= VadModel::<S>::fresh(
            sample_rate as int,
            energy_threshold,
            max_duration_secs as int,
            silence_duration_ms as int,
        ));
        r
    }

    /// Takes a chunk in, as voice or as silence, and says what it calls for.
    pub fn hear(&mut self, samples: &[S], voice: bool) -> (r: Heard)
        requires
            old(self).wf(),
        ensures
            final(self).wf(),
            final(self)@ == old(self)@.heard(samples@, voice),
            r == old(self)@.outcome(samples@, voice),
    {
        let ghost before = self@;
        self.force_split_used = false;
        if voice {
            if !self.is_speaking {
                self.is_speaking = true;
                self.speech_buffer.clear();
                self.begin_with_pre_speech();
            }
            self.silence_count = 0;
            extend(&mut self.speech_buffer, samples);
        } else if self.is_speaking {
            extend(&mut self.speech_buffer, samples);
            let held: usize = self.speech_buffer.len();
            assert(self.silence_count + samples@.len() <= held);
            self.silence_count = self.silence_count + samples.len();
            if self.silence_count as u64 >= self.silence_duration_samples {
                assert(self@ =~= before.heard(samples@, voice));
                return Heard::Ended;
            }
        } else {
            self.remember(samples);
        }
        assert(self@ =~= before.heard(samples@, voice));
        if self.is_speaking && self.speech_buffer.len() as u64 >= self.max_duration_samples {
            Heard::SplitDue
        } else {
            Heard::Nothing
        }
    }
}

/// The product of two 32-bit numbers fits in 64 bits.
proof fn lemma_product_fits(a: u32, b: u32)
    ensures
        0 <= a as int * b as int <= u64::MAX,
{
    assert(0 <= a as int * b as int <= 0xffff_ffff * 0xffff_ffff) by (nonlinear_arith)
        requires
            0 <= a <= 0xffff_ffff,
            0 <= b <= 0xffff_ffff,
    ;
}

impl<S: Copy> EnergyVad<S> {
    /// Copies the audio from before the utterance into its beginning.
    fn begin_with_pre_speech(&mut self)
        requires
            old(self).speech_buffer@.len() == 0,
        ensures
            final(self).speech_buffer@ == old(self).pre_speech_buffer@,
            *final(self) == (EnergyVad { speech_buffer: final(self).speech_buffer, ..*old(self) }),
    {
        let mut i: usize = 0;
        while i < self.pre_speech_buffer.len()
            invariant
                i <= self.pre_speech_buffer@.len(),
                *self == (EnergyVad { speech_buffer: self.speech_buffer, ..*old(self) }),
                self.speech_buffer@ == self.pre_speech_buffer@.subrange(0, i as int),
            decreases self.pre_speech_buffer@.len() - i,
        {
            let sample = self.pre_speech_buffer[i];
            self.speech_buffer.push(sample);
            i += 1;
            assert(self.pre_speech_buffer@.subrange(0, i as int)
                =~= self.pre_speech_buffer@.subrange(0, i - 1).push(sample));
        }
        assert(self.pre_speech_buffer@.subrange(0, i as int) =~= self.pre_speech_buffer@);
    }

    /// Puts silence into the ring of audio from before the next utterance.
    fn remember(&mut self, samples: &[S])
        requires
            old(self).wf(),
        ensures
            *final(self) == (EnergyVad {
                pre_speech_buffer: final(self).pre_speech_buffer,
                ..*old(self)
            }),
            final(self).pre_speech_buffer@ == last_n(
                old(self).pre_speech_buffer@ + samples@,
                old(self)@.pre_speech_limit(),
            ),
    {
        let ghost before = self.pre_speech_buffer@;
        let ghost limit = self@.pre_speech_limit();
        let mut i: usize = 0;
        assert(before + samples@.subrange(0, 0) =~= before);
        while i < samples.len()
            invariant
                i <= samples@.len(),
                before == old(self).pre_speech_buffer@,
                limit == (if self.pre_speech_capacity < 1 {
                    1
                } else {
                    self.pre_speech_capacity as int
                }),
                *self == (EnergyVad { pre_speech_buffer: self.pre_speech_buffer, ..*old(self) }),
                self.pre_speech_buffer@ == last_n(before + samples@.subrange(0, i as int), limit),
            decreases samples@.len() - i,
        {
            let ghost held = self.pre_speech_buffer@;
            if self.pre_speech_buffer.len() >= self.pre_speech_capacity {
                let _ = self.pre_speech_buffer.pop_front();
            }
            self.pre_speech_buffer.push_back(samples[i]);
            i += 1;
            proof {
                let all = before + samples@.subrange(0, i - 1);
                assert(before + samples@.subrange(0, i as int) =~= all.push(samples@[i - 1]));
                assert(self.pre_speech_buffer@ =~= last_n(all.push(samples@[i - 1]), limit));
            }
        }
        assert(samples@.subrange(0, i as int) =~= samples@);
    }
}

impl<S: Copy> EnergyVad<S> {
    /// Closes the utterance in progress and hands it out if it is long enough.
    pub fn finish_utterance(&mut self) -> (r: Option<Vec<S>>)
        requires
            old(self).wf(),
        ensures
            final(self).wf(),
            final(self)@ == old(self)@.closed(),
            hands_out(r, old(self)@.closing()),
    {
        let trailing_silence: usize = self.silence_count;
        self.is_speaking = false;
        self.silence_count = 0;
        self.pre_speech_buffer.clear();
        self.force_split_used = false;
        let speech_len: usize = self.speech_buffer.len() - trailing_silence;
        let mut utterance: Vec<S> = Vec::new();
        std::mem::swap(&mut utterance, &mut self.speech_buffer);
        assert(self@ =~= old(self)@.closed());
        if speech_len >= self.min_speech_samples {
            Some(utterance)
        } else {
            None
        }
    }

    /// Measures the split windows of the utterance in progress.
    fn window_levels<F: Fn(&[S]) -> Level>(&self, measure: &F) -> (r: Vec<Level>)
        requires
            self.wf(),
            searchable(self@.speech.len() as int, self@.sample_rate),
            measures_all::<S, F>(*measure),
        ensures
            window_levels_measured(self@, *measure, r@),
    {
        let len: usize = self.speech_buffer.len();
        let window: usize = split_window(self.sample_rate);
        let start: usize = split_search_start(len, self.sample_rate);
        let mut levels: Vec<Level> = Vec::new();
        let ghost rate = self.sample_rate as int;
        if len - start > window {
            let step: usize = window / 2;
            let ghost distance = len - window - start;
            let mut pos: usize = start;
            assert(0 * step == 0);
            while pos < len - window
                invariant
                    self.wf(),
                    measures_all::<S, F>(*measure),
                    rate == self.sample_rate,
                    len == self.speech_buffer@.len(),
                    window == window_len(rate),
                    start == search_start(len as int, rate),
                    step == window_step(rate),
                    step > 0,
                    distance == len - window - start,
                    distance > 0,
                    levels@.len() <= window_count(len as int, rate),
                    pos == window_start(len as int, rate, levels@.len() as int),
                    forall|i: int|
                        0 <= i < levels@.len() ==> measured(
                            *measure,
                            self@.window(i),
                            #[trigger] levels@[i],
                        ),
                decreases len - pos,
            {
                let part = slice_subrange(self.speech_buffer.as_slice(), pos, pos + window);
                let level = measure(part);
                proof {
                    let n = levels@.len() as int;
                    lemma_steps(distance, step as int, n);
                    assert(part@ == self@.window(n));
                    assert(measured(*measure, self@.window(n), level));
                    assert((n + 1) * step == n * step + step) by (nonlinear_arith);
                }
                levels.push(level);
                pos = pos + step;
            }
            proof {
                lemma_steps(distance, step as int, levels@.len() as int);
            }
        }
        levels
    }

    /// Splits an overlong utterance after the quietest of its windows, given
    /// how loud each of them is. The first part is handed out if it is long
    /// enough; the rest stays as the beginning of the next utterance.
    pub fn force_split(&mut self, levels: &[Level]) -> (r: Option<Vec<S>>)
        requires
            old(self).wf(),
            searchable(old(self)@.speech.len() as int, old(self)@.sample_rate),
            levels@.len() == window_count(
                old(self)@.speech.len() as int,
                old(self)@.sample_rate,
            ),
        ensures
            final(self).wf(),
            final(self)@ == old(self)@.split(old(self)@.split_point(levels@)),
            hands_out(r, old(self)@.splitting(old(self)@.split_point(levels@))),
            0 <= old(self)@.split_point(levels@) <= old(self)@.speech.len(),
    {
        let len: usize = self.speech_buffer.len();
        let best_pos: usize = match find_quietest(levels) {
            Some(i) => {
                let window: usize = split_window(self.sample_rate);
                let start: usize = split_search_start(len, self.sample_rate);
                proof {
                    windows_lie_inside(len as int, self.sample_rate as int, i as int);
                    assert(i * (window as int / 2) <= len);
                }
                start + i * (window / 2) + window
            },
            None => len,
        };
        let utterance = drain_front(&mut self.speech_buffer, best_pos);
        self.silence_count = 0;
        self.pre_speech_buffer.clear();
        self.force_split_used = true;
        assert(self@ =~= old(self)@.split(best_pos as int));
        if utterance.len() >= self.min_speech_samples {
            Some(utterance)
        } else {
            None
        }
    }

    /// Feeds a chunk of audio to the detector. Hands an utterance out when one
    /// is complete. When an overlong utterance is split, the audio after the
    /// split stays and becomes the beginning of the next utterance.
    ///
    /// `measure` says how loud a run of samples is.
    pub fn process<F: Fn(&[S]) -> Level>(&mut self, samples: &[S], measure: &F) -> (r: Option<
        Vec<S>,
    >)
        requires
            old(self).wf(),
            measures_all::<S, F>(*measure),
            can_be_processed(old(self)@, samples@, *measure),
        ensures
            final(self).wf(),
            exists|level: Level, levels: Seq<Level>| #[trigger]
                processed(old(self)@, samples@, *measure, level, levels, final(self)@, r),
    {
        let level = measure(samples);
        let ghost before = self@;
        assert(measured(*measure, samples@, level));
        let voice = self.energy_threshold.is_at_most(level);
        assert(voice == before.is_voice(level));
        match self.hear(samples, voice) {
            Heard::Ended => {
                let out = self.finish_utterance();
                assert(processed(before, samples@, *measure, level, Seq::empty(), self@, out));
                out
            },
            Heard::SplitDue => {
                let levels = self.window_levels(measure);
                let out = self.force_split(levels.as_slice());
                assert(processed(before, samples@, *measure, level, levels@, self@, out));
                out
            },
            Heard::Nothing => {
                assert(processed(before, samples@, *measure, level, Seq::empty(), self@, None));
                None
            },
        }
    }
}

/// Whether `r` holds what is to be handed out.
pub open spec fn hands_out<S>(r: Option<Vec<S>>, expected: Option<Seq<S>>) -> bool {
    match (r, expected) {
        (Some(v), Some(e)) => v@ == e,
        (None, None) => true,
        _ => false,
    }
}

/// One call of `EnergyVad::process`: `level` is what the measure said of the
/// chunk, `levels` what it said of the split windows, if a split was due.
pub open spec fn processed<S, F: Fn(&[S]) -> Level>(
    before: VadModel<S>,
    samples: Seq<S>,
    measure: F,
    level: Level,
    levels: Seq<Level>,
    after: VadModel<S>,
    r: Option<Vec<S>>,
) -> bool {
    let voice = before.is_voice(level);
    &&& measured(measure, samples, level)
    &&& before.outcome(samples, voice) == Heard::SplitDue ==> window_levels_measured(
        before.heard(samples, voice),
        measure,
        levels,
    )
    &&& after == before.after(samples, voice, levels)
    &&& hands_out(r, before.output(samples, voice, levels))
}

/// The length of a split window.
fn split_window(sample_rate: u32) -> (r: usize)
    ensures
        r == window_len(sample_rate as int),
{
    assert(sample_rate as u64 * SPLIT_WINDOW_MS == sample_rate * 50);
    (sample_rate as u64 * SPLIT_WINDOW_MS as u64 / 1000) as usize
}

/// Where the search for quiet begins.
fn split_search_start(len: usize, sample_rate: u32) -> (r: usize)
    ensures
        r == search_start(len as int, sample_rate as int),
        r <= len,
{
    assert(sample_rate as int * SPLIT_SEARCH_SECS == sample_rate * 2);
    let range: u64 = sample_rate as u64 * SPLIT_SEARCH_SECS as u64;
    if range < len as u64 {
        len - range as usize
    } else {
        0
    }
}

impl<S: Copy> EnergyVad<S> {
    /// Sets the loudness from which a chunk is voice.
    pub fn set_threshold(&mut self, threshold: Level)
        requires
            old(self).wf(),
        ensures
            final(self).wf(),
            final(self)@ == (VadModel { threshold, ..old(self)@ }),
    {
        self.energy_threshold = threshold;
        assert(self@ =~= (VadModel { threshold, ..old(self)@ }));
    }

    /// Forgets all audio.
    pub fn reset(&mut self)
        requires
            old(self).wf(),
        ensures
            final(self).wf(),
            final(self)@ == old(self)@.closed(),
    {
        self.is_speaking = false;
        self.silence_count = 0;
        self.speech_buffer.clear();
        self.pre_speech_buffer.clear();
        self.force_split_used = false;
        assert(self@ =~= old(self)@.closed());
    }

    /// Whether the last chunk made a forced split, so that what it handed out
    /// may break off in the middle of a sentence.
    pub fn was_force_split(&self) -> (r: bool)
        ensures
            r == self@.was_split,
    {
        self.force_split_used
    }

    /// Whether an utterance is in progress.
    pub fn is_speaking(&self) -> (r: bool)
        ensures
            r == self@.speaking,
    {
        self.is_speaking
    }

    /// The utterance in progress.
    pub fn current_speech(&self) -> (r: &[S])
        ensures
            r@ == self@.speech,
    {
        self.speech_buffer.as_slice()
    }

    /// How much audio from before the next utterance is held.
    pub fn pre_speech_len(&self) -> (r: usize)
        ensures
            r == self@.pre_speech.len(),
    {
        self.pre_speech_buffer.len()
    }

    /// The length below which an utterance is noise.
    pub fn min_speech_samples(&self) -> (r: usize)
        requires
            self.wf(),
        ensures
            r == self@.min_speech(),
            r == self@.sample_rate * 300 / 1000,
    {
        assert(self.sample_rate * MIN_SPEECH_DURATION_MS == self.sample_rate * 300);
        self.min_speech_samples
    }
}

/// How many windows of `window` samples, `step` apart, fit in `len` samples.
pub open spec fn fitting_windows(len: int, window: int, step: int) -> int {
    (len - window) / step + 1
}

/// Whether `r` is the loudest of `levels`: zero when none is above zero, and
/// otherwise one of them that no other is above. A level that is not a number
/// is passed over.
pub open spec fn is_loudest(levels: Seq<Level>, r: Level) -> bool {
    &&& r == Level::zero() || (levels.contains(r) && Level::zero().below(r))
    &&& forall|i: int| 0 <= i < levels.len() ==> !r.below(#[trigger] levels[i])
}

/// The loudest of a list of levels.
pub fn loudest(levels: &[Level]) -> (r: Level)
    ensures
        is_loudest(levels@, r),
{
    let mut best: Level = Level { bits: 0 };
    let mut i: usize = 0;
    while i < levels.len()
        invariant
            i <= levels@.len(),
            !best.is_nan(),
            is_loudest(levels@.subrange(0, i as int), best),
        decreases levels@.len() - i,
    {
        let ghost seen = levels@.subrange(0, i as int);
        let level = levels[i];
        if best.is_below(level) {
            best = level;
        }
        i += 1;
        proof {
            let now = levels@.subrange(0, i as int);
            assert(now =~= seen.push(level));
            assert(now[i - 1] == level);
            assert forall|k: int| 0 <= k < now.len() implies !best.below(#[trigger] now[k]) by {
                if k < i - 1 {
                    assert(now[k] == seen[k]);
                }
            }
            if best != level && best != Level::zero() {
                let k = choose|k: int| 0 <= k < seen.len() && seen[k] == best;
                assert(now[k] == best);
            }
        }
    }
    assert(levels@.subrange(0, i as int) =~= levels@);
    best
}

/// Whether `levels` is what the caller's measure said of the windows of
/// `samples`, one by one, when these are `step` apart.
pub open spec fn peak_levels_measured<S, F: Fn(&[S]) -> Level>(
    samples: Seq<S>,
    window: int,
    step: int,
    measure: F,
    levels: Seq<Level>,
) -> bool {
    &&& levels.len() == fitting_windows(samples.len() as int, window, step)
    &&& forall|i: int|
        0 <= i < levels.len() ==> measured(
            measure,
            samples.subrange(i * step, i * step + window),
            #[trigger] levels[i],
        )
}

/// Whether `peak` is the loudness of the loudest 50 ms window of `samples`, as
/// the caller's measure has it.
pub open spec fn peak_measured<S, F: Fn(&[S]) -> Level>(
    samples: Seq<S>,
    sample_rate: int,
    measure: F,
    peak: Level,
) -> bool {
    if samples.len() <= window_len(sample_rate) {
        measured(measure, samples, peak)
    } else {
        exists|levels: Seq<Level>|
            {
                &&& #[trigger] is_loudest(levels, peak)
                &&& peak_levels_measured(
                    samples,
                    window_len(sample_rate),
                    window_step(sample_rate),
                    measure,
                    levels,
                )
            }
    }
}

/// How many windows fit, counted by where they begin.
pub proof fn lemma_fitting(len: int, window: int, step: int, i: int)
    requires
        step > 0,
        0 <= window <= len,
        i >= 0,
    ensures
        i * step <= len - window <==> i < fitting_windows(len, window, step),
{
    let q = (len - window) / step;
    assert(q * step <= len - window < q * step + step) by (nonlinear_arith)
        requires
            q == (len - window) / step,
            step > 0,
    ;
    if i <= q {
        assert(i * step <= q * step) by (nonlinear_arith)
            requires
                i <= q,
                step > 0,
        ;
    } else {
        assert(i * step >= q * step + step) by (nonlinear_arith)
            requires
                i >= q + 1,
                step > 0,
        ;
    }
}

impl<S: Copy> EnergyVad<S> {
    /// The loudness of the loudest 50 ms window. Audio no longer than one window
    /// is measured as a whole.
    ///
    /// `measure` says how loud a run of samples is.
    pub fn peak_rms<F: Fn(&[S]) -> Level>(
        samples: &[S],
        sample_rate: u32,
        measure: &F,
    ) -> (r: Level)
        requires
            measures_all::<S, F>(*measure),
            samples@.len() > window_len(sample_rate as int) ==> window_step(sample_rate as int) > 0,
        ensures
            peak_measured(samples@, sample_rate as int, *measure, r),
    {
        let window: usize = split_window(sample_rate);
        let len: usize = samples.len();
        if len <= window {
            return measure(samples);
        }
        let step: usize = window / 2;
        let mut levels: Vec<Level> = Vec::new();
        let mut pos: usize = 0;
        assert(0 * step == 0);
        while pos <= len - window
            invariant
                measures_all::<S, F>(*measure),
                len == samples@.len(),
                0 < step <= window < len,
                pos == levels@.len() * step,
                levels@.len() <= fitting_windows(len as int, window as int, step as int),
                forall|i: int|
                    0 <= i < levels@.len() ==> measured(
                        *measure,
                        samples@.subrange(i * step, i * step + window),
                        #[trigger] levels@[i],
                    ),
            decreases len - pos,
        {
            let part = slice_subrange(samples, pos, pos + window);
            let level = measure(part);
            proof {
                let n = levels@.len() as int;
                lemma_fitting(len as int, window as int, step as int, n);
                assert(measured(*measure, samples@.subrange(n * step, n * step + window), level));
                assert((n + 1) * step == n * step + step) by (nonlinear_arith);
            }
            levels.push(level);
            pos = pos + step;
        }
        proof {
            lemma_fitting(len as int, window as int, step as int, levels@.len() as int);
        }
        loudest(levels.as_slice())
    }
}

} // verus!

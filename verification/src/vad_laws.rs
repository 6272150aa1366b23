//! What the energy detector promises over whole runs of audio.

use crate::level::{magnitude_is_increasing, Level, SINGLE_SIGN, SINGLE_UNIT};
use crate::samples::last_n;
use crate::vad::{
    first_quietest, is_loudest, peak_measured, processed, quietest, samples_in, search_start,
    searchable, window_count, window_len, windows_lie_inside, Heard, VadModel,
};
use vstd::prelude::*;

verus! {

/// A chunk of audio with what was measured of it: whether it is voice, and how
/// loud the split windows are should it call for a split.
#[verifier::ext_equal]
pub struct Chunk<S> {
    pub samples: Seq<S>,
    pub voice: bool,
    pub levels: Seq<Level>,
}

/// The detector after a run of chunks.
pub open spec fn run<S>(start: VadModel<S>, chunks: Seq<Chunk<S>>) -> VadModel<S>
    decreases chunks.len(),
{
    if chunks.len() == 0 {
        start
    } else {
        let last = chunks.last();
        run(start, chunks.drop_last()).after(last.samples, last.voice, last.levels)
    }
}

/// What a run of chunks hands out, in order.
pub open spec fn emitted<S>(start: VadModel<S>, chunks: Seq<Chunk<S>>) -> Seq<Seq<S>>
    decreases chunks.len(),
{
    if chunks.len() == 0 {
        Seq::empty()
    } else {
        let last = chunks.last();
        let earlier = emitted(start, chunks.drop_last());
        match run(start, chunks.drop_last()).output(last.samples, last.voice, last.levels) {
            Some(utterance) => earlier.push(utterance),
            None => earlier,
        }
    }
}

/// All samples of a run of chunks, in order.
pub open spec fn audio<S>(chunks: Seq<Chunk<S>>) -> Seq<S>
    decreases chunks.len(),
{
    if chunks.len() == 0 {
        Seq::empty()
    } else {
        audio(chunks.drop_last()) + chunks.last().samples
    }
}

/// A list of utterances as one stretch of audio.
pub open spec fn joined<S>(utterances: Seq<Seq<S>>) -> Seq<S>
    decreases utterances.len(),
{
    if utterances.len() == 0 {
        Seq::empty()
    } else {
        joined(utterances.drop_last()) + utterances.last()
    }
}

/// Whether every split of the run has a level for every one of its windows,
/// and windows to speak of.
pub open spec fn well_measured<S>(start: VadModel<S>, chunks: Seq<Chunk<S>>) -> bool {
    forall|n: int|
        0 <= n < chunks.len() ==> chunk_is_measured(#[trigger] run(start, chunks.take(n)), chunks[n])
}

/// Whether a chunk that calls for a split comes with the levels it needs.
pub open spec fn chunk_is_measured<S>(vad: VadModel<S>, chunk: Chunk<S>) -> bool {
    vad.outcome(chunk.samples, chunk.voice) == Heard::SplitDue ==> {
        let heard = vad.heard(chunk.samples, chunk.voice);
        &&& searchable(heard.speech.len() as int, heard.sample_rate)
        &&& chunk.levels.len() == window_count(heard.speech.len() as int, heard.sample_rate)
    }
}

/// A split never reaches past the utterance.
pub proof fn split_point_lies_inside<S>(vad: VadModel<S>, levels: Seq<Level>)
    requires
        vad.inv(),
        searchable(vad.speech.len() as int, vad.sample_rate),
        levels.len() == window_count(vad.speech.len() as int, vad.sample_rate),
    ensures
        0 <= vad.split_point(levels) <= vad.speech.len(),
{
    match quietest(levels) {
        Some(i) => {
            windows_lie_inside(vad.speech.len() as int, vad.sample_rate, i);
        },
        None => {},
    }
}

/// Whatever a chunk brings, the detector stays in a state that it can be in.
pub proof fn invariant_is_kept<S>(vad: VadModel<S>, chunk: Chunk<S>)
    requires
        vad.inv(),
        chunk_is_measured(vad, chunk),
    ensures
        vad.after(chunk.samples, chunk.voice, chunk.levels).inv(),
{
    let heard = vad.heard(chunk.samples, chunk.voice);
    assert(heard.inv());
    if vad.outcome(chunk.samples, chunk.voice) == Heard::SplitDue {
        split_point_lies_inside(heard, chunk.levels);
    }
}

/// Silence alone never hands anything out and never counts as speech; what is
/// remembered of it is its end.
pub proof fn silence_yields_nothing<S>(start: VadModel<S>, chunks: Seq<Chunk<S>>)
    requires
        start.inv(),
        !start.speaking,
        forall|i: int| 0 <= i < chunks.len() ==> !(#[trigger] chunks[i]).voice,
    ensures
        emitted(start, chunks) == Seq::<Seq<S>>::empty(),
        run(start, chunks) == (VadModel {
            pre_speech: last_n(start.pre_speech + audio(chunks), start.pre_speech_limit()),
            was_split: chunks.len() == 0 && start.was_split,
            ..start
        }),
    decreases chunks.len(),
{
    if chunks.len() == 0 {
        assert(start.pre_speech + audio(chunks) =~= start.pre_speech);
    } else {
        let before = chunks.drop_last();
        assert forall|i: int| 0 <= i < before.len() implies !(#[trigger] before[i]).voice by {
            assert(before[i] == chunks[i]);
        }
        silence_yields_nothing(start, before);
        let last = chunks.last();
        assert(last == chunks[chunks.len() - 1]);
        let limit = start.pre_speech_limit();
        let all = start.pre_speech + audio(before);
        assert(start.pre_speech + audio(chunks) =~= all + last.samples);
        assert(last_n(last_n(all, limit) + last.samples, limit) =~= last_n(
            all + last.samples,
            limit,
        ));
        assert(run(start, chunks).pre_speech == last_n(all + last.samples, limit));
    }
}

/// An utterance opens with the quiet that came just before it.
pub proof fn utterance_opens_with_preceding_quiet<S>(
    start: VadModel<S>,
    quiet: Seq<Chunk<S>>,
    samples: Seq<S>,
)
    requires
        start.inv(),
        !start.speaking,
        forall|i: int| 0 <= i < quiet.len() ==> !(#[trigger] quiet[i]).voice,
    ensures
        run(start, quiet).heard(samples, true).speech == last_n(
            start.pre_speech + audio(quiet),
            start.pre_speech_limit(),
        ) + samples,
{
    silence_yields_nothing(start, quiet);
}

/// Whatever is handed out is at least as long as the shortest utterance, and
/// an utterance that silence ended is so even without that silence.
pub proof fn utterances_are_long_enough<S>(vad: VadModel<S>, chunk: Chunk<S>)
    requires
        vad.inv(),
        chunk_is_measured(vad, chunk),
        vad.output(chunk.samples, chunk.voice, chunk.levels) is Some,
    ensures
        vad.output(chunk.samples, chunk.voice, chunk.levels)->0.len() >= vad.min_speech(),
        vad.ends(chunk.samples, chunk.voice) ==> vad.output(
            chunk.samples,
            chunk.voice,
            chunk.levels,
        )->0.len() - vad.heard(chunk.samples, chunk.voice).silence >= vad.min_speech(),
{
    let heard = vad.heard(chunk.samples, chunk.voice);
    if vad.outcome(chunk.samples, chunk.voice) == Heard::SplitDue {
        split_point_lies_inside(heard, chunk.levels);
    }
}

/// An utterance that was short of the limit outgrows it by less than the chunk
/// that took it there.
pub proof fn utterances_are_bounded<S>(vad: VadModel<S>, chunk: Chunk<S>)
    requires
        vad.inv(),
        vad.speaking,
        !vad.overlong(),
        chunk_is_measured(vad, chunk),
        vad.output(chunk.samples, chunk.voice, chunk.levels) is Some,
    ensures
        vad.output(chunk.samples, chunk.voice, chunk.levels)->0.len() < vad.max_duration
            + chunk.samples.len(),
{
    let heard = vad.heard(chunk.samples, chunk.voice);
    if vad.outcome(chunk.samples, chunk.voice) == Heard::SplitDue {
        split_point_lies_inside(heard, chunk.levels);
    }
}

/// Silence that ends an utterance leaves the detector as new; a forced split
/// leaves it in the middle of speech, and nothing else counts as a split.
pub proof fn ending_stops_and_splitting_goes_on<S>(vad: VadModel<S>, chunk: Chunk<S>)
    requires
        vad.inv(),
    ensures
        vad.outcome(chunk.samples, chunk.voice) == Heard::Ended ==> vad.after(
            chunk.samples,
            chunk.voice,
            chunk.levels,
        ) == vad.closed(),
        vad.outcome(chunk.samples, chunk.voice) == Heard::SplitDue ==> vad.after(
            chunk.samples,
            chunk.voice,
            chunk.levels,
        ).speaking,
        vad.after(chunk.samples, chunk.voice, chunk.levels).was_split <==> vad.outcome(
            chunk.samples,
            chunk.voice,
        ) == Heard::SplitDue,
{
    if vad.outcome(chunk.samples, chunk.voice) == Heard::Ended {
        assert(vad.after(chunk.samples, chunk.voice, chunk.levels) =~= vad.closed());
    }
}

/// A detector that was reset is one that has heard nothing.
pub proof fn reset_is_a_fresh_start<S>(
    vad: VadModel<S>,
    max_duration_secs: int,
    silence_duration_ms: int,
)
    requires
        vad.max_duration == vad.sample_rate * max_duration_secs,
        vad.silence_duration == samples_in(vad.sample_rate, silence_duration_ms),
    ensures
        vad.closed() == VadModel::<S>::fresh(
            vad.sample_rate,
            vad.threshold,
            max_duration_secs,
            silence_duration_ms,
        ),
{
    assert(vad.closed() =~= VadModel::<S>::fresh(
        vad.sample_rate,
        vad.threshold,
        max_duration_secs,
        silence_duration_ms,
    ));
}

/// A lower threshold is more sensitive: what was voice stays voice.
pub proof fn lower_threshold_hears_more<S>(vad: VadModel<S>, lower: Level, level: Level)
    requires
        lower.at_most(vad.threshold),
        vad.is_voice(level),
    ensures
        (VadModel { threshold: lower, ..vad }).is_voice(level),
{
}

/// Silence after speech ends the utterance with the chunk in which it reaches
/// the set duration, and with none before.
pub proof fn silence_ends_speech_on_time<S>(start: VadModel<S>, chunks: Seq<Chunk<S>>, n: int)
    requires
        start.inv(),
        start.speaking,
        forall|i: int| 0 <= i < chunks.len() ==> !(#[trigger] chunks[i]).voice,
        start.speech.len() + audio(chunks).len() < start.max_duration,
        0 <= n < chunks.len(),
        start.silence + audio(chunks.take(n)).len() < start.silence_duration,
    ensures
        run(start, chunks.take(n)).outcome(chunks[n].samples, false) == Heard::Ended
            <==> start.silence + audio(chunks.take(n + 1)).len() >= start.silence_duration,
{
    lemma_silence_adds_up(start, chunks, n);
    lemma_audio_grows(chunks, n + 1);
    assert(chunks.take(n + 1).drop_last() =~= chunks.take(n));
}

/// The audio of a first part of a run is no longer than that of the run.
proof fn lemma_audio_grows<S>(chunks: Seq<Chunk<S>>, n: int)
    requires
        0 <= n <= chunks.len(),
    ensures
        audio(chunks.take(n)).len() <= audio(chunks).len(),
    decreases chunks.len() - n,
{
    if n == chunks.len() {
        assert(chunks.take(n) =~= chunks);
    } else {
        lemma_audio_grows(chunks, n + 1);
        assert(chunks.take(n + 1).drop_last() =~= chunks.take(n));
    }
}

/// As long as it stays short of the set duration, silence only adds up.
proof fn lemma_silence_adds_up<S>(start: VadModel<S>, chunks: Seq<Chunk<S>>, n: int)
    requires
        start.inv(),
        start.speaking,
        forall|i: int| 0 <= i < chunks.len() ==> !(#[trigger] chunks[i]).voice,
        start.speech.len() + audio(chunks).len() < start.max_duration,
        0 <= n <= chunks.len(),
        start.silence + audio(chunks.take(n)).len() < start.silence_duration,
    ensures
        run(start, chunks.take(n)) == (VadModel {
            silence: start.silence + audio(chunks.take(n)).len(),
            speech: start.speech + audio(chunks.take(n)),
            was_split: n == 0 && start.was_split,
            ..start
        }),
    decreases n,
{
    if n == 0 {
        assert(start.speech + audio(chunks.take(0)) =~= start.speech);
    } else {
        let before = chunks.take(n).drop_last();
        assert(before =~= chunks.take(n - 1));
        assert(chunks.take(n).last() == chunks[n - 1]);
        lemma_silence_adds_up(start, chunks, n - 1);
        lemma_audio_grows(chunks, n);
        assert(start.speech + audio(chunks.take(n)) =~= start.speech + audio(before)
            + chunks[n - 1].samples);
    }
}

/// When utterances may last three seconds or more, a forced split is never
/// thrown away for being too short.
pub proof fn long_splits_are_never_dropped<S>(vad: VadModel<S>, levels: Seq<Level>)
    requires
        vad.inv(),
        vad.overlong(),
        vad.max_duration >= 3 * vad.sample_rate,
        searchable(vad.speech.len() as int, vad.sample_rate),
        levels.len() == window_count(vad.speech.len() as int, vad.sample_rate),
    ensures
        vad.splitting(vad.split_point(levels)) is Some,
{
    let rate = vad.sample_rate;
    let len = vad.speech.len() as int;
    assert(vad.min_speech() <= rate);
    assert(rate * crate::vad::SPLIT_SEARCH_SECS == rate * 2);
    match quietest(levels) {
        Some(i) => {
            assert(first_quietest(levels, i));
            let step = crate::vad::window_step(rate);
            assert(i * step >= 0) by (nonlinear_arith)
                requires
                    i >= 0,
                    step >= 0,
            ;
            assert(search_start(len, rate) >= rate || rate == 0);
            assert(window_len(rate) >= 0);
        },
        None => {},
    }
}

/// When utterances may last two seconds or more, and split windows move on, what
/// a chunk leaves in the detector is shorter than the limit: a split takes at
/// least what lies before the part that is searched for quiet.
pub proof fn held_audio_stays_below_the_limit<S>(vad: VadModel<S>, chunk: Chunk<S>)
    requires
        vad.inv(),
        vad.sample_rate >= 40,
        vad.max_duration >= 2 * vad.sample_rate,
        chunk_is_measured(vad, chunk),
    ensures
        vad.after(chunk.samples, chunk.voice, chunk.levels).speech.len() < vad.max_duration,
        vad.after(chunk.samples, chunk.voice, chunk.levels).pre_speech.len() < vad.max_duration,
{
    let rate = vad.sample_rate;
    let heard = vad.heard(chunk.samples, chunk.voice);
    let len = heard.speech.len() as int;
    assert(rate * crate::vad::SPLIT_SEARCH_SECS == rate * 2);
    assert(rate * crate::vad::PRE_SPEECH_DURATION_MS == rate * 200);
    assert(rate * crate::vad::SPLIT_WINDOW_MS == rate * 50);
    assert(window_len(rate) >= 2);
    invariant_is_kept(vad, chunk);
    if vad.outcome(chunk.samples, chunk.voice) == Heard::SplitDue {
        match quietest(chunk.levels) {
            Some(i) => {
                assert(first_quietest(chunk.levels, i));
                let step = crate::vad::window_step(rate);
                assert(i * step >= 0) by (nonlinear_arith)
                    requires
                        i >= 0,
                        step >= 0,
                ;
                split_point_lies_inside(heard, chunk.levels);
                assert(len - search_start(len, rate) <= 2 * rate);
            },
            None => {},
        }
    }
}

/// The silence that an utterance in progress ends with stays short of the
/// duration that would have ended it, when that is set above zero.
pub proof fn trailing_silence_stays_short<S>(vad: VadModel<S>, chunk: Chunk<S>)
    requires
        vad.inv(),
        vad.silence_duration > 0,
    ensures
        vad.after(chunk.samples, chunk.voice, chunk.levels).silence < vad.silence_duration,
{
}

/// As long as no silence ends the utterance and no split is thrown away for
/// being too short, no sample is lost and none comes twice: what was handed
/// out, followed by what is still held, is all the audio there was.
#[verifier::spinoff_prover]
#[verifier::rlimit(60)]
pub proof fn speech_is_cut_without_loss<S>(start: VadModel<S>, chunks: Seq<Chunk<S>>)
    requires
        start.inv(),
        start.speaking,
        well_measured(start, chunks),
        forall|n: int|
            0 <= n < chunks.len() ==> {
                let vad = #[trigger] run(start, chunks.take(n));
                &&& vad.outcome(chunks[n].samples, chunks[n].voice) != Heard::Ended
                &&& vad.outcome(chunks[n].samples, chunks[n].voice) == Heard::SplitDue
                    ==> vad.output(chunks[n].samples, chunks[n].voice, chunks[n].levels) is Some
            },
    ensures
        joined(emitted(start, chunks)) + run(start, chunks).speech == start.speech + audio(chunks),
        run(start, chunks).speaking,
        run(start, chunks).inv(),
    decreases chunks.len(),
{
    if chunks.len() == 0 {
        assert(joined(emitted(start, chunks)) + start.speech =~= start.speech + audio(chunks));
    } else {
        let before = chunks.drop_last();
        let last = chunks.last();
        let n = chunks.len() - 1;
        assert forall|k: int| 0 <= k < before.len() implies before.take(k) == chunks.take(k)
            && before[k] == chunks[k] by {
            assert(before.take(k) =~= chunks.take(k));
        }
        assert(before =~= chunks.take(n));
        assert(well_measured(start, before)) by {
            assert forall|k: int| 0 <= k < before.len() implies chunk_is_measured(
                #[trigger] run(start, before.take(k)),
                before[k],
            ) by {
                assert(before.take(k) == chunks.take(k));
                assert(chunk_is_measured(run(start, chunks.take(k)), chunks[k]));
            }
        }
        assert forall|k: int| 0 <= k < before.len() implies {
            let vad = #[trigger] run(start, before.take(k));
            &&& vad.outcome(before[k].samples, before[k].voice) != Heard::Ended
            &&& vad.outcome(before[k].samples, before[k].voice) == Heard::SplitDue ==> vad.output(
                before[k].samples,
                before[k].voice,
                before[k].levels,
            ) is Some
        } by {
            assert(before.take(k) == chunks.take(k));
        }
        speech_is_cut_without_loss(start, before);
        let vad = run(start, before);
        assert(vad == run(start, chunks.take(n)));
        assert(chunk_is_measured(run(start, chunks.take(n)), chunks[n]));
        invariant_is_kept(vad, last);
        let heard = vad.heard(last.samples, last.voice);
        assert(heard.speech == vad.speech + last.samples);
        let earlier = emitted(start, before);
        if vad.outcome(last.samples, last.voice) == Heard::SplitDue {
            split_point_lies_inside(heard, last.levels);
            let at = heard.split_point(last.levels);
            let part = heard.speech.subrange(0, at);
            assert(emitted(start, chunks) == earlier.push(part));
            assert(earlier.push(part).drop_last() =~= earlier);
            assert(joined(emitted(start, chunks)) == joined(earlier) + part);
            assert(part + run(start, chunks).speech =~= heard.speech);
        }
        assert(joined(emitted(start, chunks)) + run(start, chunks).speech =~= (joined(earlier)
            + vad.speech) + last.samples);
        assert(start.speech + audio(chunks) =~= (start.speech + audio(before)) + last.samples);
    }
}

/// If any window is measured at all, there is a quietest one to split after.
pub proof fn some_window_is_quietest(levels: Seq<Level>, k: int)
    requires
        0 <= k < levels.len(),
        levels[k].below(Level::max_finite()),
    ensures
        quietest(levels) is Some,
        first_quietest(levels, quietest(levels)->0),
{
    lemma_quietest_exists(levels, k);
}

proof fn lemma_quietest_exists(levels: Seq<Level>, k: int)
    requires
        0 <= k < levels.len(),
        levels[k].below(Level::max_finite()),
    ensures
        exists|i: int| first_quietest(levels, i),
    decreases levels.len(),
{
    let earlier = levels.drop_last();
    let last = levels.len() - 1;
    if exists|j: int| 0 <= j < last && (#[trigger] levels[j]).below(Level::max_finite()) {
        let j = choose|j: int| 0 <= j < last && (#[trigger] levels[j]).below(Level::max_finite());
        assert(earlier[j] == levels[j]);
        lemma_quietest_exists(earlier, j);
        let i = choose|i: int| first_quietest(earlier, i);
        assert(earlier[i] == levels[i]);
        if levels[last].below(levels[i]) {
            assert forall|m: int| 0 <= m < last implies !(#[trigger] levels[m]).at_most(
                levels[last],
            ) by {
                assert(earlier[m] == levels[m]);
                assert(!earlier[m].below(earlier[i]));
            }
            assert(first_quietest(levels, last));
        } else {
            assert forall|m: int| 0 <= m < levels.len() implies !(#[trigger] levels[m]).below(
                levels[i],
            ) by {
                if m < last {
                    assert(earlier[m] == levels[m]);
                    assert(!earlier[m].below(earlier[i]));
                }
            }
            assert forall|m: int| 0 <= m < i implies !(#[trigger] levels[m]).at_most(levels[i]) by {
                assert(earlier[m] == levels[m]);
                assert(!earlier[m].at_most(earlier[i]));
            }
            assert(first_quietest(levels, i));
        }
    } else {
        assert(k == last);
        assert(first_quietest(levels, last));
    }
}

/// The length of the silence that a run of chunks ends with: of all that came
/// after its last voice.
pub open spec fn trailing_silence<S>(chunks: Seq<Chunk<S>>) -> nat
    decreases chunks.len(),
{
    if chunks.len() == 0 || chunks.last().voice {
        0
    } else {
        trailing_silence(chunks.drop_last()) + chunks.last().samples.len()
    }
}

/// Only unbroken silence ends an utterance: when one is over, what came since
/// the last voice is together as long as the set duration. A pause that speech
/// has followed does not count.
pub proof fn only_unbroken_silence_ends_speech<S>(start: VadModel<S>, chunks: Seq<Chunk<S>>)
    requires
        start.silence == 0,
    ensures
        run(start, chunks).silence <= trailing_silence(chunks),
        run(start, chunks).silence_duration == start.silence_duration,
        chunks.len() > 0 && chunks.last().voice ==> run(start, chunks).silence == 0,
        chunks.len() > 0 && run(start, chunks.drop_last()).speaking && !run(start, chunks).speaking
            ==> {
            &&& !chunks.last().voice
            &&& trailing_silence(chunks) >= start.silence_duration
        },
    decreases chunks.len(),
{
    if chunks.len() > 0 {
        only_unbroken_silence_ends_speech(start, chunks.drop_last());
    }
}

/// Enough unbroken silence ends an utterance: one that stays open through
/// silence, without a forced split, has had less than the set duration of it.
pub proof fn enough_silence_ends_speech<S>(start: VadModel<S>, chunks: Seq<Chunk<S>>)
    requires
        start.silence == 0,
        chunks.len() > 0,
        forall|i: int| 0 <= i < chunks.len() ==> !(#[trigger] chunks[i]).voice,
        forall|k: int|
            0 <= k <= chunks.len() ==> {
                let vad = #[trigger] run(start, chunks.take(k));
                vad.speaking && (k > 0 ==> !vad.was_split)
            },
    ensures
        audio(chunks).len() < start.silence_duration,
        run(start, chunks).silence == audio(chunks).len(),
    decreases chunks.len(),
{
    let before = chunks.drop_last();
    let n = chunks.len() as int;
    assert(before =~= chunks.take(n - 1));
    assert(chunks =~= chunks.take(n));
    assert(run(start, chunks.take(n)).speaking && !run(start, chunks.take(n)).was_split);
    assert(run(start, chunks.take(n - 1)).speaking);
    assert(chunks.last() == chunks[n - 1]);
    only_unbroken_silence_ends_speech(start, before);
    if before.len() > 0 {
        assert forall|i: int| 0 <= i < before.len() implies !(#[trigger] before[i]).voice by {
            assert(before[i] == chunks[i]);
        }
        assert forall|k: int| 0 <= k <= before.len() implies {
            let vad = #[trigger] run(start, before.take(k));
            vad.speaking && (k > 0 ==> !vad.was_split)
        } by {
            assert(before.take(k) =~= chunks.take(k));
            let vad = run(start, chunks.take(k));
            assert(vad.speaking);
        }
        enough_silence_ends_speech(start, before);
    }
    let vad = run(start, before);
    let last = chunks.last();
    assert(run(start, chunks) == vad.after(last.samples, last.voice, last.levels));
    assert(vad.outcome(last.samples, last.voice) == Heard::Nothing);
    assert(vad.silence == audio(before).len());
    assert(audio(chunks).len() == audio(before).len() + last.samples.len());
}

/// What a new detector is set to: whole samples of so many milliseconds of
/// silence, and of so many seconds of speech. It holds nothing.
pub proof fn a_fresh_detector_is_as_it_was_set<S>(
    sample_rate: int,
    threshold: Level,
    max_duration_secs: int,
    silence_duration_ms: int,
)
    requires
        0 <= sample_rate,
        0 <= silence_duration_ms,
    ensures
        ({
            let vad = VadModel::<S>::fresh(
                sample_rate,
                threshold,
                max_duration_secs,
                silence_duration_ms,
            );
            &&& vad.sample_rate == sample_rate && vad.threshold == threshold
            &&& vad.max_duration == sample_rate * max_duration_secs
            &&& 1000 * vad.silence_duration <= sample_rate * silence_duration_ms < 1000 * (
            vad.silence_duration + 1)
            &&& 1000 * vad.min_speech() <= sample_rate * 300 < 1000 * (vad.min_speech() + 1)
            &&& !vad.speaking && !vad.was_split && vad.silence == 0
            &&& vad.speech.len() == 0 && vad.pre_speech.len() == 0
        }),
{
    assert(sample_rate * crate::vad::MIN_SPEECH_DURATION_MS == sample_rate * 300);
}

/// No chunk changes what a detector is set to.
pub proof fn settings_are_kept<S>(vad: VadModel<S>, chunk: Chunk<S>)
    ensures
        ({
            let after = vad.after(chunk.samples, chunk.voice, chunk.levels);
            &&& after.sample_rate == vad.sample_rate
            &&& after.threshold == vad.threshold
            &&& after.max_duration == vad.max_duration
            &&& after.silence_duration == vad.silence_duration
        }),
{
}

/// The loudness of a chunk and the threshold decide whether it is voice, and
/// voice is what begins an utterance: a call leaves a detector that was not
/// speaking in speech exactly when the measure is at the threshold or above.
pub proof fn the_threshold_tells_voice<S, F: Fn(&[S]) -> Level>(
    before: VadModel<S>,
    samples: Seq<S>,
    measure: F,
    level: Level,
    levels: Seq<Level>,
    after: VadModel<S>,
    r: Option<Vec<S>>,
)
    requires
        processed(before, samples, measure, level, levels, after, r),
    ensures
        exists|p: &[S]| p@ == samples && #[trigger] measure.ensures((p,), level),
        !before.speaking ==> (after.speaking <==> before.threshold.at_most(level)),
        before.threshold.at_most(level) ==> after.speaking && after.silence == 0,
{
}

/// Quiet outside speech hands nothing out. The end of it is remembered: 200 ms,
/// and one sample at least.
pub proof fn quiet_is_remembered<S, F: Fn(&[S]) -> Level>(
    before: VadModel<S>,
    samples: Seq<S>,
    measure: F,
    level: Level,
    levels: Seq<Level>,
    after: VadModel<S>,
    r: Option<Vec<S>>,
)
    requires
        before.inv(),
        processed(before, samples, measure, level, levels, after, r),
        !before.speaking,
        !before.threshold.at_most(level),
    ensures
        ({
            let all = before.pre_speech + samples;
            let ms_200 = before.sample_rate * 200 / 1000;
            let keep = if ms_200 < 1 { 1 } else { ms_200 };
            &&& r is None
            &&& !after.speaking && !after.was_split && after.speech.len() == 0
            &&& after.pre_speech.len() == (if all.len() < keep { all.len() as int } else { keep })
            &&& after.pre_speech == all.subrange(
                all.len() - after.pre_speech.len(),
                all.len() as int,
            )
        }),
{
    assert(before.sample_rate * crate::vad::PRE_SPEECH_DURATION_MS == before.sample_rate * 200);
    let all = before.pre_speech + samples;
    assert(after.pre_speech =~= all.subrange(
        all.len() - after.pre_speech.len(),
        all.len() as int,
    ));
}

/// All that an utterance has heard so far: what came just before it, when the
/// chunk begins it.
pub open spec fn heard_so_far<S>(before: VadModel<S>, samples: Seq<S>) -> Seq<S> {
    (if before.speaking {
        before.speech
    } else {
        before.pre_speech
    }) + samples
}

/// Speech that goes on hands nothing out and keeps everything: the utterance in
/// progress is all that was heard, quiet or not. Only its silence is counted.
pub proof fn speech_keeps_everything<S, F: Fn(&[S]) -> Level>(
    before: VadModel<S>,
    samples: Seq<S>,
    measure: F,
    level: Level,
    levels: Seq<Level>,
    after: VadModel<S>,
    r: Option<Vec<S>>,
)
    requires
        processed(before, samples, measure, level, levels, after, r),
        after.speaking,
        !after.was_split,
    ensures
        r is None,
        after.speech == heard_so_far(before, samples),
        after.speech.len() < before.max_duration,
        after.silence == (if before.threshold.at_most(level) {
            0
        } else {
            before.silence + samples.len()
        }),
        !before.threshold.at_most(level) ==> after.silence < before.silence_duration,
{
}

/// A chunk of quiet ends an utterance exactly when it brings the trailing
/// silence to the set duration. All that was heard is handed out, with the
/// silence, unless less than 300 ms of it came before the silence. The detector
/// is empty then.
pub proof fn an_end_hands_out_everything<S, F: Fn(&[S]) -> Level>(
    before: VadModel<S>,
    samples: Seq<S>,
    measure: F,
    level: Level,
    levels: Seq<Level>,
    after: VadModel<S>,
    r: Option<Vec<S>>,
)
    requires
        processed(before, samples, measure, level, levels, after, r),
        before.speaking,
    ensures
        !after.speaking <==> !before.threshold.at_most(level) && before.silence + samples.len()
            >= before.silence_duration,
        !after.speaking ==> {
            &&& match r {
                Some(utterance) => {
                    &&& utterance@ == before.speech + samples
                    &&& before.speech.len() - before.silence >= before.sample_rate * 300 / 1000
                },
                None => before.speech.len() - before.silence < before.sample_rate * 300 / 1000,
            }
            &&& after.speech.len() == 0 && after.pre_speech.len() == 0 && after.silence == 0
            &&& !after.was_split
        },
{
    assert(before.sample_rate * crate::vad::MIN_SPEECH_DURATION_MS == before.sample_rate * 300);
}

/// An utterance is split with the chunk in which it reaches the limit, unless
/// that chunk ends it.
pub proof fn a_split_comes_at_the_limit<S, F: Fn(&[S]) -> Level>(
    before: VadModel<S>,
    samples: Seq<S>,
    measure: F,
    level: Level,
    levels: Seq<Level>,
    after: VadModel<S>,
    r: Option<Vec<S>>,
)
    requires
        processed(before, samples, measure, level, levels, after, r),
    ensures
        after.was_split <==> after.speaking && heard_so_far(before, samples).len()
            >= before.max_duration,
        after.was_split ==> after.silence == 0 && after.pre_speech.len() == 0,
{
}

/// Where the `i`th window begins, when the first is at `from` and they are
/// `apart` samples apart.
pub open spec fn grid(from: int, apart: int, i: int) -> int {
    from + i * apart
}

/// Where the last two seconds of `len` samples begin.
pub open spec fn two_seconds_before(len: int, sample_rate: int) -> int {
    if len > 2 * sample_rate {
        len - 2 * sample_rate
    } else {
        0
    }
}

/// A split comes after the quietest 50 ms window of the last two seconds. The
/// windows begin half a window apart, from two seconds before the end or from
/// the start of a shorter utterance, as long as they end before the last sample;
/// all of them are measured. None is quieter than the one before the split, and
/// none before it is as quiet. Where no window is below the largest finite
/// level, everything is split off.
///
/// What lies before the split is handed out, unless it is shorter than 300 ms;
/// what lies after it stays.
pub proof fn a_split_comes_after_the_quietest_window<S, F: Fn(&[S]) -> Level>(
    before: VadModel<S>,
    samples: Seq<S>,
    measure: F,
    level: Level,
    levels: Seq<Level>,
    after: VadModel<S>,
    r: Option<Vec<S>>,
)
    requires
        before.inv(),
        processed(before, samples, measure, level, levels, after, r),
        after.was_split,
        ({
            let len = heard_so_far(before, samples).len();
            let window = before.sample_rate * 50 / 1000;
            let from = two_seconds_before(len as int, before.sample_rate);
            window / 2 > 0 || len - from <= window
        }),
    ensures
        ({
            let all = heard_so_far(before, samples);
            let len = all.len() as int;
            let window = before.sample_rate * 50 / 1000;
            let half = window / 2;
            let from = two_seconds_before(len as int, before.sample_rate);
            let cut = len - after.speech.len();
            &&& 0 <= cut <= len
            &&& after.speech == all.subrange(cut, len)
            &&& match r {
                Some(utterance) => utterance@ == all.subrange(0, cut) && cut >= before.sample_rate
                    * 300 / 1000,
                None => cut < before.sample_rate * 300 / 1000,
            }
            &&& forall|i: int|
                #![trigger grid(from, half, i)]
                0 <= i && grid(from, half, i) + window < len ==> i < levels.len() && exists|p: &[S]|
                    p@ == all.subrange(grid(from, half, i), grid(from, half, i) + window)
                        && #[trigger] measure.ensures((p,), levels[i])
            &&& forall|i: int|
                #![trigger grid(from, half, i)]
                0 <= i < levels.len() ==> grid(from, half, i) + window < len
            &&& {
                ||| {
                    &&& cut == len
                    &&& forall|i: int|
                        #![trigger levels[i]]
                        0 <= i < levels.len() ==> !levels[i].below(Level { bits: 0x7f7f_ffff })
                }
                ||| exists|j: int|
                    #![trigger levels[j]]
                    {
                        &&& 0 <= j < levels.len()
                        &&& cut == grid(from, half, j) + window
                        &&& levels[j].below(Level { bits: 0x7f7f_ffff })
                        &&& forall|i: int|
                            #![trigger levels[i]]
                            0 <= i < levels.len() ==> !levels[i].below(levels[j])
                        &&& forall|i: int|
                            #![trigger levels[i]]
                            0 <= i < j ==> !levels[i].at_most(levels[j])
                    }
            }
        }),
{
    let all = heard_so_far(before, samples);
    let len = all.len() as int;
    let rate = before.sample_rate;
    let window = rate * 50 / 1000;
    let half = window / 2;
    let from = two_seconds_before(len, rate);
    assert(rate * crate::vad::SPLIT_WINDOW_MS == rate * 50);
    assert(rate * crate::vad::SPLIT_SEARCH_SECS == rate * 2);
    assert(rate * crate::vad::MIN_SPEECH_DURATION_MS == rate * 300);
    let voice = before.is_voice(level);
    let heard = before.heard(samples, voice);
    assert(heard.speech == all);
    assert(before.outcome(samples, voice) == Heard::SplitDue);
    assert(window_len(rate) == window);
    assert(search_start(len, rate) == from);
    split_point_lies_inside(heard, levels);
    let cut = heard.split_point(levels);
    assert(after.speech =~= all.subrange(cut, len));
    assert(cut == len - after.speech.len());
    let distance = len - window - from;
    assert forall|i: int|
        #![trigger grid(from, half, i)]
        0 <= i && grid(from, half, i) + window < len implies i < levels.len() && exists|p: &[S]|
            p@ == all.subrange(grid(from, half, i), grid(from, half, i) + window)
                && #[trigger] measure.ensures((p,), levels[i]) by {
        assert(i * half >= 0) by (nonlinear_arith)
            requires
                i >= 0,
                half >= 0,
        ;
        assert(half > 0);
        crate::vad::lemma_steps(distance, half, i);
        assert(crate::vad::measured(measure, heard.window(i), levels[i]));
    }
    assert forall|i: int| #![trigger grid(from, half, i)] 0 <= i < levels.len() implies grid(from, half, i)
        + window < len by {
        windows_lie_inside(len, rate, i);
    }
    assert(match r {
        Some(utterance) => utterance@ == all.subrange(0, cut) && cut >= rate * 300 / 1000,
        None => cut < rate * 300 / 1000,
    });
    match quietest(levels) {
        Some(j) => {
            assert(first_quietest(levels, j));
            assert(levels[j].below(Level { bits: 0x7f7f_ffff }));
            assert(cut == grid(from, half, j) + window);
        },
        None => {
            assert forall|i: int| #![trigger levels[i]] 0 <= i < levels.len() implies !levels[i].below(
                Level { bits: 0x7f7f_ffff },
            ) by {
                if levels[i].below(Level { bits: 0x7f7f_ffff }) {
                    some_window_is_quietest(levels, i);
                }
            }
        },
    }
}

/// How loud audio is: no 50 ms window of it, half a window apart from the start
/// on, is louder, and one of them is as loud, where any is above zero. Audio no
/// longer than a window is measured as a whole.
pub proof fn a_peak_is_the_loudest_window<S, F: Fn(&[S]) -> Level>(
    samples: Seq<S>,
    sample_rate: int,
    measure: F,
    peak: Level,
) -> (levels: Seq<Level>)
    requires
        sample_rate >= 0,
        peak_measured(samples, sample_rate, measure, peak),
        samples.len() > sample_rate * 50 / 1000 ==> sample_rate * 50 / 1000 / 2 > 0,
    ensures
        ({
            let window = sample_rate * 50 / 1000;
            let half = window / 2;
            &&& samples.len() <= window ==> exists|p: &[S]|
                p@ == samples && #[trigger] measure.ensures((p,), peak)
            &&& samples.len() > window ==> {
                &&& forall|i: int|
                    #![trigger grid(0, half, i)]
                    0 <= i && grid(0, half, i) + window <= samples.len() ==> i < levels.len() && exists|
                        p: &[S],
                    |
                        p@ == samples.subrange(grid(0, half, i), grid(0, half, i) + window)
                            && #[trigger] measure.ensures((p,), levels[i])
                &&& forall|i: int|
                    #![trigger grid(0, half, i)]
                    0 <= i < levels.len() ==> grid(0, half, i) + window <= samples.len() && !peak.below(
                        levels[i],
                    )
                &&& peak == (Level { bits: 0 }) || ((Level { bits: 0 }).below(peak)
                    && exists|i: int| 0 <= i < levels.len() && #[trigger] levels[i] == peak)
            }
        }),
{
    let window = sample_rate * 50 / 1000;
    let half = window / 2;
    let len = samples.len() as int;
    assert(sample_rate * crate::vad::SPLIT_WINDOW_MS == sample_rate * 50);
    if len <= window {
        Seq::empty()
    } else {
        let levels = choose|levels: Seq<Level>|
            {
                &&& #[trigger] is_loudest(levels, peak)
                &&& crate::vad::peak_levels_measured(samples, window, half, measure, levels)
            };
        assert forall|i: int|
            #![trigger grid(0, half, i)]
            0 <= i && grid(0, half, i) + window <= len implies i < levels.len() && exists|p: &[S]|
                p@ == samples.subrange(grid(0, half, i), grid(0, half, i) + window)
                    && #[trigger] measure.ensures((p,), levels[i]) by {
            crate::vad::lemma_fitting(len, window, half, i);
            assert(crate::vad::measured(
                measure,
                samples.subrange(grid(0, half, i), grid(0, half, i) + window),
                levels[i],
            ));
        }
        assert forall|i: int| #![trigger grid(0, half, i)] 0 <= i < levels.len() implies grid(0, half, i) + window
            <= len && !peak.below(levels[i]) by {
            crate::vad::lemma_fitting(len, window, half, i);
        }
        if peak != (Level { bits: 0 }) {
            let i = choose|i: int| 0 <= i < levels.len() && levels[i] == peak;
            assert(levels[i] == peak);
        }
        levels
    }
}

/// There is only one loudest level.
pub proof fn loudest_is_unique(levels: Seq<Level>, a: Level, b: Level)
    requires
        is_loudest(levels, a),
        is_loudest(levels, b),
    ensures
        a == b,
{
    if a != Level::zero() {
        let i = choose|i: int| 0 <= i < levels.len() && levels[i] == a;
        assert(!b.below(levels[i]));
    }
    if b != Level::zero() {
        let j = choose|j: int| 0 <= j < levels.len() && levels[j] == b;
        assert(!a.below(levels[j]));
    }
    assert(a.bits < SINGLE_SIGN && b.bits < SINGLE_SIGN && a.units() == b.units()) by {
        lemma_positive_has_no_sign(a);
        lemma_positive_has_no_sign(b);
    }
    if a.bits < b.bits {
        magnitude_is_increasing(a.bits as int, b.bits as int, SINGLE_UNIT as int);
    } else if b.bits < a.bits {
        magnitude_is_increasing(b.bits as int, a.bits as int, SINGLE_UNIT as int);
    }
}

/// A number above zero has its sign bit clear.
proof fn lemma_positive_has_no_sign(a: Level)
    ensures
        Level::zero().below(a) ==> a.bits < SINGLE_SIGN,
{
    if a.bits > SINGLE_SIGN {
        magnitude_is_increasing(0, a.mag(), SINGLE_UNIT as int);
    }
}

} // verus!

//! What the bookkeeping around the Silero detector promises.

use crate::samples::last_n;
use crate::silero_vad::{
    larger, Report, Segment, SileroModel, HISTORY_MARGIN_SECS, HISTORY_TRIM_SLACK, MIN_SPEECH,
    PRE_ROLL, SAMPLE_RATE, WINDOW,
};
use vstd::prelude::*;

verus! {

/// Whether `stream` is everything the detector was given, and the history its
/// end.
pub open spec fn follows<S>(vad: SileroModel<S>, stream: Seq<S>) -> bool {
    &&& vad.tracking()
    &&& stream.len() == vad.fed
    &&& vad.history == stream.subrange(vad.history_start, vad.fed)
}

/// A fresh detector has been given nothing.
pub proof fn fresh_follows_nothing<S>(max_speech_secs: int)
    requires
        0 <= max_speech_secs,
        (max_speech_secs + HISTORY_MARGIN_SECS) * SAMPLE_RATE + HISTORY_TRIM_SLACK <= usize::MAX,
    ensures
        follows(SileroModel::<S>::fresh(max_speech_secs), Seq::empty()),
{
    let fresh = SileroModel::<S>::fresh(max_speech_secs);
    assert(fresh.history =~= Seq::<S>::empty().subrange(0, 0));
}

/// The history stays the end of the stream, window by window.
pub proof fn history_is_the_end_of_the_stream<S>(
    vad: SileroModel<S>,
    stream: Seq<S>,
    window: Seq<S>,
    report: Report<S>,
)
    requires
        follows(vad, stream),
    ensures
        follows(vad.absorbed(window, report), stream + window),
{
    let after = vad.absorbed(window, report);
    assert(after.history =~= (stream + window).subrange(after.history_start, after.fed));
}

/// However audio is chopped into chunks, none of it is lost: what the detector
/// was given, followed by what waits to fill a window, is all there was.
pub proof fn no_sample_is_lost<S>(
    vad: SileroModel<S>,
    stream: Seq<S>,
    samples: Seq<S>,
    reports: Seq<Report<S>>,
)
    requires
        vad.inv(),
        follows(vad, stream),
        reports.len() == vad.windows_due(samples.len() as int),
    ensures
        ({
            let data = vad.carry + samples;
            let given = stream + data.subrange(0, reports.len() * WINDOW);
            &&& follows(vad.after(samples, reports), given)
            &&& given + vad.after(samples, reports).carry == stream + vad.carry + samples
            &&& vad.after(samples, reports).inv()
        }),
{
    let data = vad.carry + samples;
    let n = reports.len() as int;
    assert(n * WINDOW <= data.len() < n * WINDOW + WINDOW);
    lemma_windows_follow(vad, stream, data, reports);
    let given = stream + data.subrange(0, n * WINDOW);
    let after = vad.after(samples, reports);
    assert(after.history == vad.absorbed_all(data, reports).history);
    assert(given + after.carry =~= stream + vad.carry + samples);
}

proof fn lemma_windows_follow<S>(
    vad: SileroModel<S>,
    stream: Seq<S>,
    data: Seq<S>,
    reports: Seq<Report<S>>,
)
    requires
        follows(vad, stream),
        reports.len() * WINDOW <= data.len(),
    ensures
        follows(
            vad.absorbed_all(data, reports),
            stream + data.subrange(0, reports.len() * WINDOW),
        ),
    decreases reports.len(),
{
    if reports.len() == 0 {
        assert(stream + data.subrange(0, 0) =~= stream);
    } else {
        let n = reports.len() - 1;
        lemma_windows_follow(vad, stream, data, reports.drop_last());
        let window = data.subrange(n * WINDOW, n * WINDOW + WINDOW);
        let middle = vad.absorbed_all(data, reports.drop_last());
        let given = stream + data.subrange(0, n * WINDOW);
        history_is_the_end_of_the_stream(middle, given, window, reports.last());
        assert(given + window =~= stream + data.subrange(0, reports.len() * WINDOW));
    }
}

/// A finished segment that is not too old gets its whole pre-roll: the 0.8 s
/// of the stream before it, or all of the stream before it when there is less.
pub proof fn pre_roll_is_complete<S>(vad: SileroModel<S>, stream: Seq<S>, segment: Segment<S>)
    requires
        follows(vad, stream),
        0 <= segment.start <= vad.fed,
        vad.fed - segment.start + PRE_ROLL <= vad.history_cap,
    ensures
        vad.padded(segment) == stream.subrange(
            larger(segment.start - PRE_ROLL, 0),
            segment.start as int,
        ) + segment.samples@,
{
    assert(vad.padded(segment) =~= stream.subrange(
        larger(segment.start - PRE_ROLL, 0),
        segment.start as int,
    ) + segment.samples@);
}

/// The history is long enough for the pre-roll of any utterance of the length
/// it was made for, and more than a second of delay on top.
pub proof fn history_covers_the_longest_utterance<S>(max_speech_secs: int, age: int)
    requires
        0 <= max_speech_secs,
        age <= max_speech_secs * SAMPLE_RATE + SAMPLE_RATE,
    ensures
        age + PRE_ROLL <= SileroModel::<S>::fresh(max_speech_secs).history_cap,
{
}

/// Finished utterances are handed out in the order in which they were
/// finished, one at a time, and none is lost.
pub proof fn utterances_keep_their_order<S>(
    vad: SileroModel<S>,
    samples: Seq<S>,
    reports: Seq<Report<S>>,
)
    ensures
        vad.fed_with(samples, reports).pending == (match vad.output(samples, reports) {
            Some(utterance) => seq![utterance],
            None => Seq::empty(),
        }) + vad.after(samples, reports).pending,
        vad.pending.len() <= vad.fed_with(samples, reports).pending.len(),
        vad.pending == vad.fed_with(samples, reports).pending.subrange(
            0,
            vad.pending.len() as int,
        ),
{
    let fed = vad.fed_with(samples, reports);
    lemma_pending_only_grows(vad, vad.carry + samples, reports);
    if fed.pending.len() > 0 {
        assert(fed.pending =~= seq![fed.pending[0]] + fed.pending.subrange(
            1,
            fed.pending.len() as int,
        ));
    } else {
        assert(fed.pending =~= Seq::empty() + fed.pending);
    }
}

proof fn lemma_pending_only_grows<S>(vad: SileroModel<S>, data: Seq<S>, reports: Seq<Report<S>>)
    ensures
        vad.pending.len() <= vad.absorbed_all(data, reports).pending.len(),
        vad.pending == vad.absorbed_all(data, reports).pending.subrange(
            0,
            vad.pending.len() as int,
        ),
    decreases reports.len(),
{
    if reports.len() == 0 {
        assert(vad.pending =~= vad.pending.subrange(0, vad.pending.len() as int));
    } else {
        lemma_pending_only_grows(vad, data, reports.drop_last());
        let middle = vad.absorbed_all(data, reports.drop_last()).pending;
        let all = vad.absorbed_all(data, reports).pending;
        assert(all.subrange(0, vad.pending.len() as int) =~= middle.subrange(
            0,
            vad.pending.len() as int,
        ));
    }
}

/// A chunk of audio, with what the detector says of the windows it completes.
pub struct Fed<S> {
    pub samples: Seq<S>,
    pub reports: Seq<Report<S>>,
}

/// The state after a run of chunks.
pub open spec fn run<S>(start: SileroModel<S>, chunks: Seq<Fed<S>>) -> SileroModel<S>
    decreases chunks.len(),
{
    if chunks.len() == 0 {
        start
    } else {
        run(start, chunks.drop_last()).after(chunks.last().samples, chunks.last().reports)
    }
}

/// Whether every chunk of a run comes with a report for each window that it
/// completes.
pub open spec fn reported<S>(start: SileroModel<S>, chunks: Seq<Fed<S>>) -> bool
    decreases chunks.len(),
{
    if chunks.len() == 0 {
        true
    } else {
        let last = chunks.last();
        &&& reported(start, chunks.drop_last())
        &&& last.reports.len() == run(start, chunks.drop_last()).windows_due(
            last.samples.len() as int,
        )
    }
}

/// All samples of a run of chunks, in order.
pub open spec fn audio<S>(chunks: Seq<Fed<S>>) -> Seq<S>
    decreases chunks.len(),
{
    if chunks.len() == 0 {
        Seq::empty()
    } else {
        audio(chunks.drop_last()) + chunks.last().samples
    }
}

/// The windows that the detector is given in a run of chunks, in order.
pub open spec fn windows<S>(start: SileroModel<S>, chunks: Seq<Fed<S>>) -> Seq<Seq<S>>
    decreases chunks.len(),
{
    if chunks.len() == 0 {
        Seq::empty()
    } else {
        windows(start, chunks.drop_last()) + run(start, chunks.drop_last()).due(
            chunks.last().samples,
        )
    }
}

/// The utterances that are finished in a run of chunks, in order.
pub open spec fn finished<S>(start: SileroModel<S>, chunks: Seq<Fed<S>>) -> Seq<Seq<S>>
    decreases chunks.len(),
{
    if chunks.len() == 0 {
        Seq::empty()
    } else {
        finished(start, chunks.drop_last()) + run(start, chunks.drop_last()).finished(
            chunks.last().samples,
            chunks.last().reports,
        )
    }
}

/// The utterances that are handed out in a run of chunks, in order.
pub open spec fn handed_out<S>(start: SileroModel<S>, chunks: Seq<Fed<S>>) -> Seq<Seq<S>>
    decreases chunks.len(),
{
    if chunks.len() == 0 {
        Seq::empty()
    } else {
        let earlier = handed_out(start, chunks.drop_last());
        match run(start, chunks.drop_last()).output(chunks.last().samples, chunks.last().reports) {
            Some(utterance) => earlier.push(utterance),
            None => earlier,
        }
    }
}

/// However audio is cut into chunks, the detector is given its whole windows,
/// one after another, and the rest waits for the next call.
pub proof fn windows_do_not_depend_on_the_chunks<S>(max_speech_secs: int, chunks: Seq<Fed<S>>)
    requires
        reported(SileroModel::<S>::fresh(max_speech_secs), chunks),
    ensures
        ({
            let start = SileroModel::<S>::fresh(max_speech_secs);
            let s = audio(chunks);
            let n = s.len() as int / 512;
            &&& windows(start, chunks) == Seq::new(
                n as nat,
                |i: int| s.subrange(i * 512, i * 512 + 512),
            )
            &&& run(start, chunks).carry == s.subrange(n * 512, s.len() as int)
            &&& run(start, chunks).carry.len() == s.len() as int % 512
        }),
    decreases chunks.len(),
{
    let start = SileroModel::<S>::fresh(max_speech_secs);
    let s = audio(chunks);
    let n = s.len() as int / WINDOW as int;
    if chunks.len() == 0 {
        assert(run(start, chunks).carry =~= s.subrange(0, 0));
        assert(windows(start, chunks) =~= Seq::new(
            0,
            |i: int| s.subrange(i * WINDOW, i * WINDOW + WINDOW),
        ));
    } else {
        let before = chunks.drop_last();
        let last = chunks.last();
        windows_do_not_depend_on_the_chunks(max_speech_secs, before);
        let t = audio(before);
        let m = t.len() as int / WINDOW as int;
        let vad = run(start, before);
        let data = vad.carry + last.samples;
        let due = vad.windows_due(last.samples.len() as int);
        assert(n == m + due);
        assert(data =~= s.subrange(m * WINDOW, s.len() as int));
        assert(run(start, chunks).carry =~= s.subrange(n * WINDOW, s.len() as int));
        let expected = Seq::new(n as nat, |i: int| s.subrange(i * WINDOW, i * WINDOW + WINDOW));
        assert forall|i: int| 0 <= i < n implies windows(start, chunks)[i] == expected[i] by {
            if i < m {
                assert(t.subrange(i * WINDOW, i * WINDOW + WINDOW) =~= s.subrange(
                    i * WINDOW,
                    i * WINDOW + WINDOW,
                ));
            } else {
                let k = i - m;
                assert(data.subrange(k * WINDOW, k * WINDOW + WINDOW) =~= s.subrange(
                    i * WINDOW,
                    i * WINDOW + WINDOW,
                ));
            }
        }
        assert(windows(start, chunks) =~= expected);
    }
}

/// What was handed out, followed by what is still held, is all that was
/// finished. So each call hands out the oldest finished utterance that was not
/// handed out yet, and nothing exactly when there is none.
pub proof fn the_oldest_utterance_comes_next<S>(
    max_speech_secs: int,
    chunks: Seq<Fed<S>>,
    next: Fed<S>,
)
    ensures
        ({
            let start = SileroModel::<S>::fresh(max_speech_secs);
            let out = handed_out(start, chunks);
            let all = finished(start, chunks.push(next));
            &&& out + run(start, chunks).pending == finished(start, chunks)
            &&& out.len() <= all.len()
            &&& run(start, chunks).output(next.samples, next.reports) == (if out.len()
                < all.len() {
                Some(all[out.len() as int])
            } else {
                None
            })
        }),
{
    let start = SileroModel::<S>::fresh(max_speech_secs);
    lemma_handed_out(start, chunks);
    assert(chunks.push(next).drop_last() =~= chunks);
    let vad = run(start, chunks);
    utterances_keep_their_order(vad, next.samples, next.reports);
    let fed = vad.fed_with(next.samples, next.reports).pending;
    assert(fed =~= vad.pending + vad.finished(next.samples, next.reports));
    assert(finished(start, chunks.push(next)) =~= handed_out(start, chunks) + fed);
}

proof fn lemma_handed_out<S>(start: SileroModel<S>, chunks: Seq<Fed<S>>)
    requires
        start.pending.len() == 0,
    ensures
        handed_out(start, chunks) + run(start, chunks).pending == finished(start, chunks),
    decreases chunks.len(),
{
    if chunks.len() == 0 {
        assert(handed_out(start, chunks) + start.pending =~= finished(start, chunks));
    } else {
        let before = chunks.drop_last();
        let last = chunks.last();
        lemma_handed_out(start, before);
        let vad = run(start, before);
        utterances_keep_their_order(vad, last.samples, last.reports);
        let fed = vad.fed_with(last.samples, last.reports).pending;
        assert(fed =~= vad.pending + vad.finished(last.samples, last.reports));
        assert(handed_out(start, chunks) + run(start, chunks).pending =~= handed_out(start, before)
            + fed);
        assert(finished(start, chunks) =~= handed_out(start, before) + fed);
    }
}

/// The larger of two numbers.
pub open spec fn at_least(a: int, b: int) -> int {
    if a > b {
        a
    } else {
        b
    }
}

/// A window that the detector takes in goes to the end of the stream; what is
/// kept of the stream is its end, never less than the kept length unless that is
/// all of it, and no more than four seconds more. With more than that, it is cut
/// down to the kept length; it is left alone otherwise.
///
/// Every segment that the detector reports becomes one utterance, in order, after
/// those that are there: the stream from 0.8 s before the segment up to the
/// segment, as far as it is kept, followed by all samples of the segment.
pub proof fn a_window_finishes_its_segments<S>(
    vad: SileroModel<S>,
    stream: Seq<S>,
    window: Seq<S>,
    report: Report<S>,
)
    requires
        stream.len() == vad.fed,
        0 <= vad.history_start <= vad.fed,
        vad.history == stream.subrange(vad.history_start, vad.fed),
        vad.history_cap >= 0,
        vad.history_start > 0 ==> vad.history.len() >= vad.history_cap,
        forall|i: int|
            0 <= i < report.segments@.len() ==> (#[trigger] report.segments@[i]).start <= vad.fed
                + window.len() + 12_800,
    ensures
        ({
            let after = vad.absorbed(window, report);
            let all = stream + window;
            let held = vad.pending.len() as int;
            &&& after.fed == all.len()
            &&& 0 <= after.history_start <= after.fed
            &&& after.history == all.subrange(after.history_start, after.fed)
            &&& after.history_cap == vad.history_cap
            &&& after.history_start > 0 ==> after.history.len() >= after.history_cap
            &&& after.history.len() <= vad.history_cap + 64_000
            &&& after.history_start == (if all.len() - vad.history_start > vad.history_cap + 64_000 {
                all.len() - vad.history_cap
            } else {
                vad.history_start
            })
            &&& after.carry == vad.carry
            &&& after.speaking == report.detected
            &&& after.pending.len() == held + report.segments@.len()
            &&& after.pending.subrange(0, held) == vad.pending
            &&& forall|i: int|
                0 <= i < report.segments@.len() ==> {
                    let segment = #[trigger] report.segments@[i];
                    let start = at_least(segment.start as int, 0);
                    let from = at_least(at_least(start - 12_800, 0), after.history_start);
                    let to = if at_least(start, from) < all.len() {
                        at_least(start, from)
                    } else {
                        all.len() as int
                    };
                    after.pending[held + i] == all.subrange(from, to) + segment.samples@
                }
        }),
{
    let after = vad.absorbed(window, report);
    let all = stream + window;
    let held = vad.pending.len() as int;
    assert(after.history =~= all.subrange(after.history_start, after.fed));
    assert(after.pending.subrange(0, held) =~= vad.pending);
    assert forall|i: int| 0 <= i < report.segments@.len() implies {
        let segment = #[trigger] report.segments@[i];
        let start = at_least(segment.start as int, 0);
        let from = at_least(at_least(start - 12_800, 0), after.history_start);
        let to = if at_least(start, from) < all.len() {
            at_least(start, from)
        } else {
            all.len() as int
        };
        after.pending[held + i] == all.subrange(from, to) + segment.samples@
    } by {
        let segment = report.segments@[i];
        let start = at_least(segment.start as int, 0);
        let from = at_least(at_least(start - 12_800, 0), after.history_start);
        let to = if at_least(start, from) < all.len() {
            at_least(start, from)
        } else {
            all.len() as int
        };
        assert(after.pending[held + i] =~= all.subrange(from, to) + segment.samples@);
    }
}

/// The segments that some reports speak of, in order.
pub open spec fn segments<S>(reports: Seq<Report<S>>) -> Seq<Segment<S>>
    decreases reports.len(),
{
    if reports.len() == 0 {
        Seq::empty()
    } else {
        segments(reports.drop_last()) + reports.last().segments@
    }
}

/// The segments that are reported in a run of chunks, in order.
pub open spec fn all_segments<S>(chunks: Seq<Fed<S>>) -> Seq<Segment<S>>
    decreases chunks.len(),
{
    if chunks.len() == 0 {
        Seq::empty()
    } else {
        all_segments(chunks.drop_last()) + segments(chunks.last().reports)
    }
}

/// A segment of a stream with what comes before it in the stream: 0.8 s, or all
/// that there is.
pub open spec fn with_lead<S>(stream: Seq<S>, segment: Segment<S>) -> Seq<S> {
    stream.subrange(at_least(segment.start - 12_800, 0), segment.start as int) + segment.samples@
}

/// Whether each segment lies in the part of the stream that was given by the
/// time it is reported, and no further back than `reach`. The first report is
/// on the window that ends at `given`.
pub open spec fn timely<S>(reports: Seq<Report<S>>, given: int, reach: int) -> bool {
    forall|n: int, i: int|
        0 <= n < reports.len() && 0 <= i < reports[n].segments@.len() ==> {
            let start = (#[trigger] reports[n].segments@[i]).start;
            0 <= start <= given + n * 512 && given + n * 512 - start + 12_800 <= reach
        }
}

/// Whether that holds of every chunk of a run.
pub open spec fn all_timely<S>(chunks: Seq<Fed<S>>, reach: int) -> bool
    decreases chunks.len(),
{
    if chunks.len() == 0 {
        true
    } else {
        &&& all_timely(chunks.drop_last(), reach)
        &&& timely(
            chunks.last().reports,
            audio(chunks.drop_last()).len() as int / 512 * 512 + 512,
            reach,
        )
    }
}

/// What holds of the history while windows are taken in.
spec fn keeps_up<S>(vad: SileroModel<S>, stream: Seq<S>) -> bool {
    &&& stream.len() == vad.fed
    &&& 0 <= vad.history_start <= vad.fed
    &&& vad.history == stream.subrange(vad.history_start, vad.fed)
    &&& vad.history_cap >= 0
    &&& vad.history_start > 0 ==> vad.history.len() >= vad.history_cap
}

/// Taking in one window after another: `whole` is a stream that begins with all
/// that is given.
proof fn lemma_segments_finish<S>(
    vad: SileroModel<S>,
    stream: Seq<S>,
    data: Seq<S>,
    reports: Seq<Report<S>>,
    whole: Seq<S>,
)
    requires
        keeps_up(vad, stream),
        reports.len() as int * 512 <= data.len(),
        timely(reports, vad.fed + 512, vad.history_cap),
        stream.len() + reports.len() as int * 512 <= whole.len(),
        stream + data.subrange(0, reports.len() as int * 512) == whole.subrange(
            0,
            stream.len() + reports.len() as int * 512,
        ),
    ensures
        ({
            let after = vad.absorbed_all(data, reports);
            &&& keeps_up(after, stream + data.subrange(0, reports.len() as int * 512))
            &&& after.history_cap == vad.history_cap
            &&& after.carry == vad.carry
            &&& after.pending == vad.pending + segments(reports).map_values(
                |segment: Segment<S>| with_lead(whole, segment),
            )
            &&& reports.len() > 0 ==> after.speaking == reports.last().detected
            &&& reports.len() == 0 ==> after == vad
        }),
    decreases reports.len(),
{
    let f = |segment: Segment<S>| with_lead(whole, segment);
    let after = vad.absorbed_all(data, reports);
    if reports.len() == 0 {
        assert(stream + data.subrange(0, 0) =~= stream);
        assert(after.pending =~= vad.pending + segments(reports).map_values(f));
    } else {
        let n = reports.len() - 1;
        let earlier = reports.drop_last();
        let last = reports.last();
        let window = data.subrange(n * 512, n * 512 + 512);
        let given = stream + data.subrange(0, n * 512);
        let all = stream + data.subrange(0, reports.len() as int * 512);
        assert(given =~= whole.subrange(0, stream.len() + n * 512)) by {
            assert forall|k: int| 0 <= k < given.len() implies given[k] == whole[k] by {
                assert(given[k] == all[k]);
                assert(all[k] == whole.subrange(0, stream.len() + reports.len() as int * 512)[k]);
            }
        }
        assert(timely(earlier, vad.fed + 512, vad.history_cap)) by {
            assert forall|m: int, i: int|
                0 <= m < earlier.len() && 0 <= i < earlier[m].segments@.len() implies {
                let start = (#[trigger] earlier[m].segments@[i]).start;
                0 <= start <= vad.fed + 512 + m * 512 && vad.fed + 512 + m * 512 - start + 12_800
                    <= vad.history_cap
            } by {
                assert(earlier[m].segments@[i] == reports[m].segments@[i]);
            }
        }
        lemma_segments_finish(vad, stream, data, earlier, whole);
        let middle = vad.absorbed_all(data, earlier);
        assert(given + window =~= all);
        assert forall|i: int| 0 <= i < last.segments@.len() implies (
        #[trigger] last.segments@[i]).start <= middle.fed + 512 + 12_800 by {
            assert(reports[n].segments@[i] == last.segments@[i]);
        }
        a_window_finishes_its_segments(middle, given, window, last);
        assert(after == middle.absorbed(window, last));
        let held = middle.pending.len() as int;
        assert forall|i: int| 0 <= i < last.segments@.len() implies after.pending[held + i] == f(
            last.segments@[i],
        ) by {
            let segment = last.segments@[i];
            assert(reports[n].segments@[i] == segment);
            assert(all.len() == vad.fed + 512 + n * 512);
            let from = at_least(segment.start - 12_800, 0);
            assert(from >= after.history_start);
            assert(all.subrange(from, segment.start as int) =~= whole.subrange(
                from,
                segment.start as int,
            )) by {
                assert forall|k: int| from <= k < segment.start implies all[k] == whole[k] by {
                    assert(all[k] == whole.subrange(0, stream.len() + reports.len() as int * 512)[k]);
                }
            }
        }
        assert(after.pending =~= vad.pending + segments(reports).map_values(f)) by {
            assert(segments(reports) == segments(earlier) + last.segments@);
            assert forall|k: int| 0 <= k < held implies after.pending[k] == middle.pending[k] by {
                assert(after.pending.subrange(0, held)[k] == middle.pending[k]);
            }
        }
    }
}

/// However audio is cut into chunks, every segment that the detector reports
/// becomes one utterance, in order: the 0.8 s of audio before the segment, or all
/// of it when there is less, and the whole segment. This is so for segments that
/// lie in the audio given so far, and reach no further back than the longest
/// utterance and two seconds, with the 0.8 s.
pub proof fn every_segment_becomes_an_utterance<S>(max_speech_secs: int, chunks: Seq<Fed<S>>)
    requires
        0 <= max_speech_secs,
        reported(SileroModel::<S>::fresh(max_speech_secs), chunks),
        all_timely(chunks, (max_speech_secs + 2) * 16_000),
    ensures
        ({
            let done = finished(SileroModel::<S>::fresh(max_speech_secs), chunks);
            &&& done.len() == all_segments(chunks).len()
            &&& forall|i: int|
                0 <= i < done.len() ==> #[trigger] done[i] == with_lead(
                    audio(chunks),
                    all_segments(chunks)[i],
                )
        }),
{
    let whole = audio(chunks);
    assert(whole =~= whole.subrange(0, whole.len() as int));
    lemma_run_finishes(max_speech_secs, chunks, whole);
}

proof fn lemma_run_finishes<S>(max_speech_secs: int, chunks: Seq<Fed<S>>, whole: Seq<S>)
    requires
        0 <= max_speech_secs,
        reported(SileroModel::<S>::fresh(max_speech_secs), chunks),
        all_timely(chunks, (max_speech_secs + 2) * 16_000),
        audio(chunks).len() <= whole.len(),
        audio(chunks) == whole.subrange(0, audio(chunks).len() as int),
    ensures
        ({
            let start = SileroModel::<S>::fresh(max_speech_secs);
            let vad = run(start, chunks);
            let s = audio(chunks);
            &&& keeps_up(vad, s.subrange(0, s.len() as int / 512 * 512))
            &&& vad.history_cap == (max_speech_secs + 2) * 16_000
            &&& finished(start, chunks) == all_segments(chunks).map_values(
                |segment: Segment<S>| with_lead(whole, segment),
            )
        }),
    decreases chunks.len(),
{
    let start = SileroModel::<S>::fresh(max_speech_secs);
    let f = |segment: Segment<S>| with_lead(whole, segment);
    let s = audio(chunks);
    if chunks.len() == 0 {
        assert(start.history =~= s.subrange(0, 0).subrange(0, 0));
        assert(finished(start, chunks) =~= all_segments(chunks).map_values(f));
    } else {
        let before = chunks.drop_last();
        let last = chunks.last();
        let t = audio(before);
        assert(t =~= whole.subrange(0, t.len() as int)) by {
            assert forall|k: int| 0 <= k < t.len() implies t[k] == whole[k] by {
                assert(t[k] == s[k]);
                assert(s[k] == whole.subrange(0, s.len() as int)[k]);
            }
        }
        lemma_run_finishes(max_speech_secs, before, whole);
        windows_do_not_depend_on_the_chunks(max_speech_secs, before);
        windows_do_not_depend_on_the_chunks(max_speech_secs, chunks);
        let vad = run(start, before);
        let data = vad.carry + last.samples;
        let m = t.len() as int / 512;
        let n = last.reports.len() as int;
        let stream = t.subrange(0, m * 512);
        assert(m * 512 == t.len() as int / 512 * 512);
        assert(data =~= s.subrange(m * 512, s.len() as int));
        assert(m * 512 + n * 512 == s.len() as int / 512 * 512);
        assert(stream + data.subrange(0, n * 512) =~= s.subrange(0, m * 512 + n * 512));
        assert(s.subrange(0, m * 512 + n * 512) =~= whole.subrange(0, m * 512 + n * 512)) by {
            assert forall|k: int| 0 <= k < m * 512 + n * 512 implies s[k] == whole[k] by {
                assert(s[k] == whole.subrange(0, s.len() as int)[k]);
            }
        }
        lemma_segments_finish(vad, stream, data, last.reports, whole);
        let fed = vad.fed_with(last.samples, last.reports);
        assert(fed.pending == vad.absorbed_all(data, last.reports).pending);
        assert(vad.finished(last.samples, last.reports) =~= segments(last.reports).map_values(f));
        assert(finished(start, chunks) =~= all_segments(chunks).map_values(f));
        assert(run(start, chunks).history == vad.absorbed_all(data, last.reports).history);
    }
}

/// It makes no difference where audio is cut: feeding two chunks is feeding both
/// as one.
pub proof fn chunks_can_be_joined<S>(
    vad: SileroModel<S>,
    a: Seq<S>,
    ra: Seq<Report<S>>,
    b: Seq<S>,
    rb: Seq<Report<S>>,
)
    requires
        ra.len() as int * 512 <= vad.carry.len() + a.len(),
        (ra.len() + rb.len()) as int * 512 <= vad.carry.len() + a.len() + b.len(),
    ensures
        vad.fed_with(a, ra).fed_with(b, rb) == vad.fed_with(a + b, ra + rb),
{
    let da = vad.carry + a;
    let dab = vad.carry + (a + b);
    let first = vad.fed_with(a, ra);
    let db = first.carry + b;
    assert(db =~= dab.subrange(ra.len() as int * 512, dab.len() as int));
    lemma_join(vad, da, ra, db, rb, dab);
    lemma_carry_is_apart(vad.absorbed_all(da, ra), first.carry, db, rb);
    assert((ra + rb).len() == ra.len() + rb.len());
    assert(db.subrange(rb.len() as int * 512, db.len() as int) =~= dab.subrange(
        (ra + rb).len() as int * 512,
        dab.len() as int,
    ));
    assert(vad.fed_with(a, ra).fed_with(b, rb) =~= vad.fed_with(a + b, ra + rb));
}

/// What waits to fill a window plays no part in taking windows in.
proof fn lemma_carry_is_apart<S>(
    vad: SileroModel<S>,
    carry: Seq<S>,
    data: Seq<S>,
    reports: Seq<Report<S>>,
)
    ensures
        (SileroModel { carry, ..vad }).absorbed_all(data, reports) == (SileroModel {
            carry,
            ..vad.absorbed_all(data, reports)
        }),
    decreases reports.len(),
{
    if reports.len() > 0 {
        lemma_carry_is_apart(vad, carry, data, reports.drop_last());
        let n = reports.len() - 1;
        let window = data.subrange(n * 512, n * 512 + 512);
        let x = vad.absorbed_all(data, reports.drop_last());
        let y = SileroModel { carry, ..x };
        assert(x.absorbed(window, reports.last()).pending =~= y.absorbed(
            window,
            reports.last(),
        ).pending);
        assert(y.absorbed(window, reports.last()) =~= (SileroModel {
            carry,
            ..x.absorbed(window, reports.last())
        }));
    }
}

proof fn lemma_join<S>(
    vad: SileroModel<S>,
    da: Seq<S>,
    ra: Seq<Report<S>>,
    db: Seq<S>,
    rb: Seq<Report<S>>,
    dab: Seq<S>,
)
    requires
        ra.len() as int * 512 <= da.len() <= dab.len(),
        (ra.len() + rb.len()) as int * 512 <= dab.len(),
        forall|k: int| 0 <= k < da.len() ==> #[trigger] da[k] == dab[k],
        db == dab.subrange(ra.len() as int * 512, dab.len() as int),
    ensures
        vad.absorbed_all(da, ra).absorbed_all(db, rb) == vad.absorbed_all(dab, ra + rb),
    decreases ra.len() + rb.len(),
{
    if rb.len() > 0 {
        let n = rb.len() - 1;
        lemma_join(vad, da, ra, db, rb.drop_last(), dab);
        assert((ra + rb).drop_last() =~= ra + rb.drop_last());
        assert((ra + rb).last() == rb.last());
        let m = ra.len() + n;
        assert(db.subrange(n * 512, n * 512 + 512) =~= dab.subrange(m * 512, m * 512 + 512));
    } else if ra.len() > 0 {
        let n = ra.len() - 1;
        let shorter = dab.subrange(n * 512, dab.len() as int);
        lemma_join(vad, da, ra.drop_last(), shorter, rb, dab);
        assert(ra + rb =~= ra);
        assert(ra.drop_last() + rb =~= ra.drop_last());
        assert(da.subrange(n * 512, n * 512 + 512) =~= dab.subrange(n * 512, n * 512 + 512));
    } else {
        assert(ra + rb =~= rb);
        assert(rb =~= ra);
    }
}

/// Feeding exactly one window is taking that window in, and then handing out the
/// oldest finished utterance; feeding less than a window only makes it wait.
pub proof fn feeding_is_taking_windows_in<S>(vad: SileroModel<S>, window: Seq<S>, report: Report<S>)
    requires
        vad.carry.len() == 0,
        window.len() == 512,
    ensures
        ({
            let taken = vad.absorbed(window, report);
            let after = vad.after(window, seq![report]);
            &&& after == (SileroModel { pending: after.pending, ..taken })
            &&& match vad.output(window, seq![report]) {
                Some(utterance) => taken.pending == seq![utterance] + after.pending,
                None => taken.pending.len() == 0 && after.pending.len() == 0,
            }
        }),
        forall|few: Seq<S>|
            {
                let after = #[trigger] vad.after(few, Seq::empty());
                after == (SileroModel { carry: few, pending: after.pending, ..vad })
            },
{
    let data = vad.carry + window;
    assert(data =~= window);
    assert(data.subrange(0, 512) =~= window);
    let one = seq![report];
    assert(one.drop_last() =~= Seq::empty());
    assert(vad.absorbed_all(data, one.drop_last()) == vad);
    assert(vad.absorbed_all(data, one) == vad.absorbed(window, report));
    let taken = vad.absorbed(window, report);
    let fed = vad.fed_with(window, one);
    assert(fed.carry =~= Seq::empty());
    assert(taken.carry =~= Seq::empty());
    assert(fed =~= taken);
    if taken.pending.len() > 0 {
        assert(taken.pending =~= seq![taken.pending[0]] + taken.pending.subrange(
            1,
            taken.pending.len() as int,
        ));
    }
    assert forall|few: Seq<S>| {
        let after = #[trigger] vad.after(few, Seq::empty());
        after == (SileroModel { carry: few, pending: after.pending, ..vad })
    } by {
        let data = vad.carry + few;
        assert(data =~= few);
        assert(vad.absorbed_all(data, Seq::empty()) == vad);
        assert(data.subrange(0, data.len() as int) =~= few);
    }
}

/// The utterance in progress, as it can be seen: nothing unless speech is being
/// detected. With the first window of speech it is that window, the quarter of a
/// second that detection lags and 0.8 s before, as far as these are kept. It
/// grows by every further window.
pub proof fn the_utterance_in_progress_grows<S>(
    vad: SileroModel<S>,
    window: Seq<S>,
    report: Report<S>,
)
    requires
        vad.fed == vad.history_start + vad.history.len(),
        0 <= vad.history_start,
        0 <= vad.history_cap,
        0 <= vad.speech_start <= vad.fed,
    ensures
        ({
            let after = vad.absorbed(window, report);
            let n = after.history.len() as int;
            let seen = window.len() + 4_000 + 12_800;
            &&& !report.detected ==> after.current().len() == 0
            &&& report.detected && !vad.speaking ==> after.current() == after.history.subrange(
                at_least(n - seen, 0),
                n,
            )
            &&& report.detected && vad.speaking ==> after.speech_start == vad.speech_start
            &&& report.detected && vad.speaking && after.history_start <= vad.speech_start
                ==> after.current() == vad.current() + window
            &&& report.detected && vad.speaking && after.history_start > vad.speech_start
                ==> after.current() == after.history
        }),
{
    let after = vad.absorbed(window, report);
    let n = after.history.len() as int;
    let seen = window.len() + 4_000 + 12_800;
    if report.detected {
        if !vad.speaking {
            assert(after.current() =~= after.history.subrange(at_least(n - seen, 0), n));
        } else if after.history_start <= vad.speech_start {
            assert(after.current() =~= vad.current() + window);
        } else {
            assert(after.current() =~= after.history);
        }
    }
}

/// When speech is newly detected, the utterance in progress is what the
/// history has of the last window, the lag of the detection and the pre-roll.
pub proof fn speech_begins_before_its_detection<S>(
    vad: SileroModel<S>,
    window: Seq<S>,
    report: Report<S>,
)
    requires
        vad.tracking(),
        !vad.speaking,
        report.detected,
    ensures
        vad.absorbed(window, report).current() == last_n(
            vad.absorbed(window, report).history,
            window.len() + MIN_SPEECH + PRE_ROLL,
        ),
{
    let after = vad.absorbed(window, report);
    assert(after.current() =~= last_n(after.history, window.len() + MIN_SPEECH + PRE_ROLL));
}

} // verus!

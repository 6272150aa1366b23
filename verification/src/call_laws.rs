//! What calls promise: how their results follow from what they are given, and
//! how one call bears on the next.

use crate::capture::{
    frame, frames_are_all_of_the_audio, mix_down, mixed, CaptureAction, CaptureEvent, CaptureLoop,
    Command,
};
use crate::device_list::{device_list, entries, listed, DeviceEntry, DeviceKind, DeviceProbe};
use crate::engine_sherpa::{the_best_file_is_picked, SherpaModelFiles};
use crate::engine_whisper::{join_segments, transcripts_add_up, ModelCache};
use crate::error::AudioError;
use crate::infer::infer_threads;
use crate::level::Level;
use crate::pipeline::{
    an_utterance_is_kept_whole_or_discarded, contents, decided,
    speech_in_progress_is_shown_at_intervals, submit_status, InferJob, Sent, SpeechPipeline,
};
use crate::player::{
    audio_input, base64_text, clips_queue_unless_they_interrupt, data_uri_gives_back_its_audio,
    decode_data_uri, playback_commands, queue_after_all, AudioCommand,
};
use crate::samples::{drain_front, extend};
use crate::session::{
    configs_changed, start_session, EngineChoice, GlobalConfig, MicConfig, SessionSettings,
    SessionUpdate,
};
use crate::silero_laws::{a_window_finishes_its_segments, at_least};
use crate::silero_vad::{Report, SileroVad};
use crate::text::{begins_with, finishes_with, holds_text, texts, trimmed};
use crate::transcriber::Build;
use crate::vad::{measures_all, processed, EnergyVad, Heard};
use crate::vad_laws::{a_split_comes_after_the_quietest_window, heard_so_far};
use vstd::prelude::*;

verus! {

/// A pause that speech has followed is forgotten: only the silence after the
/// speech counts towards the end of the utterance, however long the pause was.
pub proof fn a_pause_is_forgotten<S: Copy>(
    paused: &mut EnergyVad<S>,
    pause: &[S],
    resumed: &mut EnergyVad<S>,
    speech: &[S],
    quiet: &mut EnergyVad<S>,
    silence: &[S],
    first: Heard,
    second: Heard,
    third: Heard,
)
    requires
        call_ensures(EnergyVad::<S>::hear, (paused, pause, false), first),
        call_ensures(EnergyVad::<S>::hear, (resumed, speech, true), second),
        call_ensures(EnergyVad::<S>::hear, (quiet, silence, false), third),
        old(resumed)@ == final(paused)@,
        old(quiet)@ == final(resumed)@,
    ensures
        second != Heard::Ended,
        final(resumed)@.silence == 0,
        final(quiet)@.silence == silence@.len(),
        third == Heard::Ended <==> silence@.len() >= old(paused)@.silence_duration,
{
}

/// What is heard becomes part of the utterance in progress, voice or not, and
/// voice begins one. Silence is counted from the last voice on. An utterance that
/// has enough of it is over; one that goes on and has reached the limit is to be
/// split. Outside an utterance, the last 200 ms are remembered, and one sample at
/// least.
pub proof fn a_chunk_is_taken_in<S: Copy>(
    vad: &mut EnergyVad<S>,
    samples: &[S],
    voice: bool,
    r: Heard,
)
    requires
        old(vad)@.inv(),
        call_ensures(EnergyVad::<S>::hear, (vad, samples, voice), r),
    ensures
        final(vad)@.speaking <==> old(vad)@.speaking || voice,
        final(vad)@.speaking ==> final(vad)@.speech == heard_so_far(old(vad)@, samples@),
        !final(vad)@.speaking ==> final(vad)@.speech.len() == 0 && r == Heard::Nothing,
        voice ==> final(vad)@.silence == 0,
        !voice && final(vad)@.speaking ==> final(vad)@.silence == old(vad)@.silence
            + samples@.len(),
        r == Heard::Ended <==> old(vad)@.speaking && !voice && final(vad)@.silence >= old(vad)@.silence_duration,
        r == Heard::SplitDue <==> r != Heard::Ended && final(vad)@.speaking && final(vad)@.speech.len() >= old(vad)@.max_duration,
        !final(vad)@.was_split,
        final(vad)@.threshold == old(vad)@.threshold,
        final(vad)@.max_duration == old(vad)@.max_duration,
        final(vad)@.silence_duration == old(vad)@.silence_duration,
        final(vad)@.sample_rate == old(vad)@.sample_rate,
        final(vad)@.speaking ==> final(vad)@.pre_speech == old(vad)@.pre_speech,
        !final(vad)@.speaking ==> {
            let all = old(vad)@.pre_speech + samples@;
            let ms_200 = old(vad)@.sample_rate * 200 / 1000;
            let keep = at_least(ms_200, 1);
            &&& final(vad)@.pre_speech.len() == (if all.len() < keep { all.len() as int } else { keep })
            &&& final(vad)@.pre_speech == all.subrange(
                all.len() - final(vad)@.pre_speech.len(),
                all.len() as int,
            )
        },
{
    let rate = old(vad)@.sample_rate;
    assert(rate * crate::vad::PRE_SPEECH_DURATION_MS == rate * 200);
    if !final(vad)@.speaking {
        let all = old(vad)@.pre_speech + samples@;
        assert(final(vad)@.pre_speech =~= all.subrange(
            all.len() - final(vad)@.pre_speech.len(),
            all.len() as int,
        ));
    }
}

/// Closing an utterance hands all of it out, unless less than 300 ms of it came
/// before the silence that it ends with, and leaves nothing behind. So does
/// forgetting all audio, which hands nothing out.
pub proof fn closing_leaves_nothing_behind<S: Copy>(
    vad: &mut EnergyVad<S>,
    r: Option<Vec<S>>,
    forgetful: &mut EnergyVad<S>,
)
    requires
        call_ensures(EnergyVad::<S>::finish_utterance, (vad,), r),
        call_ensures(EnergyVad::<S>::reset, (forgetful,), ()),
    ensures
        match r {
            Some(utterance) => {
                &&& utterance@ == old(vad)@.speech
                &&& old(vad)@.speech.len() - old(vad)@.silence >= old(vad)@.sample_rate * 300 / 1000
            },
            None => old(vad)@.speech.len() - old(vad)@.silence < old(vad)@.sample_rate * 300 / 1000,
        },
        !final(vad)@.speaking && !final(vad)@.was_split && final(vad)@.silence == 0,
        final(vad)@.speech.len() == 0 && final(vad)@.pre_speech.len() == 0,
        final(vad)@.threshold == old(vad)@.threshold,
        final(vad)@.max_duration == old(vad)@.max_duration,
        final(vad)@.silence_duration == old(vad)@.silence_duration,
        final(vad)@.sample_rate == old(vad)@.sample_rate,
        !final(forgetful)@.speaking && !final(forgetful)@.was_split && final(forgetful)@.silence
            == 0,
        final(forgetful)@.speech.len() == 0 && final(forgetful)@.pre_speech.len() == 0,
        final(forgetful)@.threshold == old(forgetful)@.threshold,
        final(forgetful)@.max_duration == old(forgetful)@.max_duration,
        final(forgetful)@.silence_duration == old(forgetful)@.silence_duration,
        final(forgetful)@.sample_rate == old(forgetful)@.sample_rate,
{
    assert(old(vad)@.sample_rate * crate::vad::MIN_SPEECH_DURATION_MS == old(vad)@.sample_rate
        * 300);
}

/// A split cuts the utterance in two: the first part is handed out, unless it is
/// shorter than 300 ms, and the rest is the utterance in progress. It begins no
/// earlier than two seconds before the end.
pub proof fn a_split_cuts_in_two<S: Copy>(
    vad: &mut EnergyVad<S>,
    levels: &[Level],
    r: Option<Vec<S>>,
)
    requires
        old(vad)@.inv(),
        call_ensures(EnergyVad::<S>::force_split, (vad, levels), r),
    ensures
        final(vad)@.was_split && final(vad)@.silence == 0 && final(vad)@.pre_speech.len() == 0,
        final(vad)@.speaking == old(vad)@.speaking,
        final(vad)@.speech.len() <= old(vad)@.speech.len(),
        final(vad)@.speech.len() <= 2 * old(vad)@.sample_rate,
        ({
            let all = old(vad)@.speech;
            let cut = all.len() - final(vad)@.speech.len();
            &&& final(vad)@.speech == all.subrange(cut, all.len() as int)
            &&& match r {
                Some(utterance) => {
                    &&& utterance@ == all.subrange(0, cut)
                    &&& utterance@.len() >= old(vad)@.sample_rate * 300 / 1000
                },
                None => cut < old(vad)@.sample_rate * 300 / 1000,
            }
        }),
{
    let rate = old(vad)@.sample_rate;
    assert(rate * crate::vad::MIN_SPEECH_DURATION_MS == rate * 300);
    assert(rate * crate::vad::SPLIT_SEARCH_SECS == rate * 2);
    assert(rate * crate::vad::SPLIT_WINDOW_MS == rate * 50);
    let at = old(vad)@.split_point(levels@);
    assert(final(vad)@.speech =~= old(vad)@.speech.subrange(at, old(vad)@.speech.len() as int));
    match crate::vad::quietest(levels@) {
        Some(i) => {
            assert(crate::vad::first_quietest(levels@, i));
            let step = crate::vad::window_step(rate);
            assert(i * step >= 0) by (nonlinear_arith)
                requires
                    i >= 0,
                    step >= 0,
            ;
        },
        None => {},
    }
}

/// A new detector ends an utterance after 800 ms of silence, or after the set
/// duration, and has heard nothing.
pub proof fn a_new_detector_waits_for_silence<S: Copy>(
    sample_rate: u32,
    threshold: Level,
    max_duration_secs: u32,
    silence_duration_ms: u32,
    usual: EnergyVad<S>,
    set: EnergyVad<S>,
)
    requires
        call_ensures(
            EnergyVad::<S>::new,
            (sample_rate, threshold, max_duration_secs),
            usual,
        ),
        call_ensures(
            EnergyVad::<S>::with_silence,
            (sample_rate, threshold, max_duration_secs, silence_duration_ms),
            set,
        ),
    ensures
        usual@.silence_duration == sample_rate as int * 800 / 1000,
        set@.silence_duration == sample_rate as int * silence_duration_ms as int / 1000,
        usual@.max_duration == sample_rate as int * max_duration_secs as int,
        set@.max_duration == sample_rate as int * max_duration_secs as int,
        usual@.threshold == threshold && set@.threshold == threshold,
        usual@.sample_rate == sample_rate && set@.sample_rate == sample_rate,
        !usual@.speaking && usual@.pre_speech.len() == 0,
        !set@.speaking && set@.pre_speech.len() == 0,
        silence_duration_ms == 800 ==> set@ == usual@,
{
}

/// Any chunk can be fed to a detector whose sample rate is at least 40 a second,
/// so that split windows move on.
pub proof fn any_chunk_can_be_processed<S: Copy, F: Fn(&[S]) -> Level>(
    vad: &mut EnergyVad<S>,
    samples: &[S],
    measure: &F,
)
    requires
        old(vad).wf(),
        forall|p: &[S]| #[trigger] measure.requires((p,)),
        old(vad)@.sample_rate >= 40,
    ensures
        call_requires(EnergyVad::<S>::process::<F>, (vad, samples, measure)),
{
    let rate = old(vad)@.sample_rate;
    assert(rate * crate::vad::SPLIT_WINDOW_MS == rate * 50);
    assert(crate::vad::window_step(rate) > 0);
    assert(measures_all::<S, F>(*measure));
}

/// Every segment that is reported becomes one utterance, in order, after those
/// that wait already. It ends with all samples of the segment, and what comes
/// before them is at most 0.8 s.
pub proof fn a_reported_segment_is_kept_whole<S: Copy>(
    vad: &mut SileroVad<S>,
    window: &[S],
    report: &Report<S>,
    i: int,
)
    requires
        old(vad)@.tracking(),
        call_ensures(SileroVad::<S>::feed_window, (vad, window, report), ()),
        forall|k: int|
            0 <= k < report.segments@.len() ==> (#[trigger] report.segments@[k]).start <= old(vad)@.fed + window@.len() + 12_800,
        0 <= i < report.segments@.len(),
    ensures
        ({
            let before = old(vad)@.pending;
            let after = final(vad)@.pending;
            let segment = report.segments@[i].samples@;
            let utterance = after[before.len() + i];
            let lead = utterance.len() - segment.len();
            &&& after.len() == before.len() + report.segments@.len()
            &&& before == after.subrange(0, before.len() as int)
            &&& 0 <= lead <= 12_800
            &&& utterance.subrange(lead, utterance.len() as int) == segment
        }),
{
    let model = old(vad)@;
    let stream = Seq::new(
        model.fed as nat,
        |k: int|
            if k < model.history_start {
                arbitrary()
            } else {
                model.history[k - model.history_start]
            },
    );
    assert(model.history =~= stream.subrange(model.history_start, model.fed));
    a_window_finishes_its_segments(model, stream, window@, *report);
    let segment = report.segments@[i];
    let utterance = final(vad)@.pending[model.pending.len() + i];
    let lead = utterance.len() - segment.samples@.len();
    assert(utterance.subrange(lead, utterance.len() as int) =~= segment.samples@);
}

/// New bookkeeping holds nothing, and keeps two seconds more than the longest
/// utterance.
pub proof fn new_bookkeeping_holds_nothing<S: Copy>(max_speech_secs: u32, r: SileroVad<S>)
    requires
        call_ensures(SileroVad::<S>::new, (max_speech_secs,), r),
    ensures
        r@.carry.len() == 0 && r@.history.len() == 0 && r@.pending.len() == 0,
        r@.fed == 0 && r@.history_start == 0 && r@.speech_start == 0,
        !r@.speaking,
        r@.current().len() == 0,
        r@.history_cap == (max_speech_secs + 2) * 16_000,
{
}

/// Any chunk can be fed to the bookkeeping, with a report for every window of 512
/// samples that it completes, as long as the stream can be counted and no segment
/// begins more than 0.8 s after what the detector has seen.
pub proof fn any_chunk_can_be_fed<S: Copy>(
    vad: &mut SileroVad<S>,
    samples: &[S],
    reports: &Vec<Report<S>>,
)
    requires
        old(vad)@.inv(),
        old(vad)@.fed + old(vad)@.carry.len() + samples@.len() <= usize::MAX,
        reports@.len() == (old(vad)@.carry.len() + samples@.len()) as int / 512,
        forall|n: int, i: int|
            0 <= n < reports@.len() && 0 <= i < reports@[n].segments@.len() ==> (
            #[trigger] reports@[n].segments@[i]).start <= old(vad)@.fed + (n + 1) * 512 + 12_800,
    ensures
        call_requires(SileroVad::<S>::process, (vad, samples, reports)),
{
}

/// What the resampler gives is fed to the pipeline just as it is, all of it; and
/// what is read is, where there is nothing to resample and nothing waits.
pub proof fn the_pipeline_is_fed_all_that_comes<S: Copy>(
    capture: &mut CaptureLoop<S>,
    given: Vec<S>,
    r: CaptureAction<S>,
    direct: &mut CaptureLoop<S>,
    read: Vec<S>,
    s: CaptureAction<S>,
)
    requires
        given@.len() > 0,
        call_ensures(
            CaptureLoop::<S>::step,
            (capture, CaptureEvent::Resampled(Some(given))),
            r,
        ),
        !old(direct)@.resampling,
        old(direct)@.mono.len() == 0,
        call_ensures(CaptureLoop::<S>::step, (direct, CaptureEvent::Block(Some(read))), s),
    ensures
        r matches CaptureAction::Feed(fed) && fed@ == given@,
        final(capture)@.mono == old(capture)@.mono,
        s matches CaptureAction::Feed(fed) && fed@ == read@,
        final(direct)@.mono.len() == 0,
{
    assert(old(direct)@.mono + read@ =~= read@);
}

/// Every minimum volume above zero takes effect, as soon as it is set: what is
/// quieter does not pass, and what is not does. One at zero or below lets
/// everything pass.
pub proof fn a_minimum_volume_takes_effect(
    pipeline: &mut SpeechPipeline,
    min_volume: Level,
    set: &SpeechPipeline,
    peak: Level,
    r: bool,
)
    requires
        call_ensures(SpeechPipeline::set_min_volume, (pipeline, min_volume), ()),
        set@ == final(pipeline)@,
        call_ensures(SpeechPipeline::passes_min_volume, (set, peak), r),
    ensures
        (Level { bits: 0 }).below(min_volume) ==> (r <==> !peak.below(min_volume)),
        min_volume.at_most(Level { bits: 0 }) ==> r,
        0 < min_volume.bits <= 0x7f80_0000 && peak.bits <= 0x7f80_0000 ==> (r <==> peak.bits
            >= min_volume.bits),
        final(pipeline)@.since == old(pipeline)@.since,
        final(pipeline)@.interval == old(pipeline)@.interval,
{
    crate::level::levels_compare_by_their_bits(Level { bits: 0 }, min_volume);
    crate::level::levels_compare_by_their_bits(min_volume, Level { bits: 0 });
    crate::level::levels_compare_by_their_bits(peak, min_volume);
}

/// The worker gets half of the cores, rounded down, but two threads at least and
/// eight at most; more cores never mean fewer threads. An unknown number of cores
/// counts as four.
pub proof fn threads_grow_with_the_cores(few: usize, many: usize, a: i32, b: i32, unknown: i32)
    requires
        few <= many,
        call_ensures(infer_threads, (Some(few),), a),
        call_ensures(infer_threads, (Some(many),), b),
        call_ensures(infer_threads, (None,), unknown),
    ensures
        2 <= a <= b <= 8,
        a > 2 ==> 2 * a <= few,
        a < 8 ==> few < 2 * (a + 1),
        unknown == 2,
{
}

/// The loss of a whole utterance to a full queue is told, and nothing else.
pub proof fn only_lost_utterances_are_told(is_final: bool, sent: Sent, r: Option<&'static str>)
    requires
        call_ensures(submit_status, (is_final, sent), r),
    ensures
        r is Some <==> is_final && sent == Sent::Full,
        r matches Some(status) ==> status@ == "dropped: transcription backlog"@,
{
}

/// A session starts exactly when capture is on, the engine that is asked for is
/// built in, and Whisper, if that is the engine, has its model. Otherwise nothing
/// is started, without an error when capture is off and with one when it is on.
pub proof fn a_session_starts_when_it_can(
    config: &MicConfig,
    global: &GlobalConfig,
    build: Build,
    r: Result<Option<SessionSettings>, AudioError>,
)
    requires
        build.transcribe || build.sherpa,
        call_ensures(start_session, (config, global, build), r),
    ensures
        ({
            let on = config.enabled != Some(false);
            let default = config.engine is None || config.engine->0@.len() == 0;
            let whisper = build.transcribe && (default || config.engine->0@ == "whisper"@);
            let sherpa = build.sherpa && (if default {
                !build.transcribe
            } else {
                config.engine->0@ == "sherpa"@
            });
            let has_model = global.model_path matches Some(p) && p@.len() > 0;
            &&& !on ==> (r matches Ok(None))
            &&& on ==> !(r matches Ok(None))
            &&& on && whisper && has_model ==> {
                r matches Ok(Some(settings)) && (settings.engine matches EngineChoice::Whisper {
                    model_path,
                } && model_path@ == global.model_path->0@)
            }
            &&& on && sherpa ==> {
                r matches Ok(Some(settings)) && (settings.engine matches EngineChoice::Sherpa {
                    model_dir,
                } && (global.sherpa_model_dir matches Some(dir) ==> model_dir@ == dir@)
                    && (global.sherpa_model_dir is None ==> model_dir@.len() == 0))
            }
            &&& on && whisper && !has_model ==> {
                r matches Err(e) && e.says_invalid_config(
                    "Whisper model path not set. Download from https://huggingface.co/ggerganov/whisper.cpp/tree/main"@,
                )
            }
            &&& on && !whisper && !sherpa ==> {
                r matches Err(e) && e.says_invalid_config(
                    "Transcription engine '"@ + config.engine->0@
                        + "' is not available in this build. Available: "@ + (if build.transcribe
                        && build.sherpa {
                        "whisper, sherpa"@
                    } else if build.transcribe {
                        "whisper"@
                    } else {
                        "sherpa"@
                    }),
                )
            }
        }),
{
    reveal_strlit("");
    reveal_strlit("whisper");
    reveal_strlit("sherpa");
}

/// A running session that is told of a configuration goes on with the loudness
/// and the language that a session started with it would have. A capture that
/// runs is paused or resumed, as the configuration has it.
pub proof fn a_change_is_as_good_as_a_new_start(
    config: &MicConfig,
    global: &GlobalConfig,
    build: Build,
    has_thread: bool,
    fresh: Result<Option<SessionSettings>, AudioError>,
    changed: Option<SessionUpdate>,
    ignored: Option<SessionUpdate>,
)
    requires
        call_ensures(start_session, (config, global, build), fresh),
        call_ensures(configs_changed, (true, has_thread, config), changed),
        call_ensures(configs_changed, (false, has_thread, config), ignored),
    ensures
        ignored is None,
        changed matches Some(update) && {
            &&& fresh matches Ok(Some(settings)) ==> {
                &&& update.sensitivity == settings.sensitivity
                &&& update.min_volume == settings.min_volume
                &&& update.language@ == settings.language@
            }
            &&& update.command == (if !has_thread {
                None
            } else if config.enabled == Some(false) {
                Some(Command::Pause)
            } else {
                Some(Command::Resume)
            })
        },
{
}

/// A clip waits behind those before it; one that interrupts is the only one.
pub proof fn clips_wait_unless_they_interrupt(
    queue: Seq<Seq<u8>>,
    audio: Vec<u8>,
    waits: Vec<AudioCommand>,
    interrupts: Vec<AudioCommand>,
)
    requires
        call_ensures(playback_commands, (audio, false), waits),
        call_ensures(playback_commands, (audio, true), interrupts),
    ensures
        queue_after_all(queue, waits@) == queue.push(audio@),
        queue_after_all(queue, interrupts@) == seq![audio@],
{
    clips_queue_unless_they_interrupt(queue, audio, false, waits@);
    clips_queue_unless_they_interrupt(queue, audio, true, interrupts@);
}

/// Audio that was put into a data URI comes out of it unchanged, also where it is
/// an input value.
pub proof fn audio_comes_out_as_it_went_in(
    uri: &str,
    mime: Seq<char>,
    bytes: Seq<u8>,
    r: Result<Vec<u8>, AudioError>,
    s: Result<Vec<u8>, AudioError>,
)
    requires
        uri@ == "data:"@ + mime + ";base64,"@ + base64_text(bytes),
        !holds_text(mime, ";base64,"@),
        call_ensures(decode_data_uri, (uri,), r),
        call_ensures(audio_input, (Some(uri),), s),
    ensures
        r matches Ok(audio) && audio@ == bytes,
        s matches Ok(audio) && audio@ == bytes,
{
    reveal_strlit("data:");
    data_uri_gives_back_its_audio(mime, bytes, r);
    data_uri_gives_back_its_audio(mime, bytes, s);
}

/// Every device that records is listed before those whose playback is, and each
/// is listed exactly when both its identifier and its description are known.
pub proof fn inputs_come_before_outputs(
    inputs: Vec<DeviceProbe>,
    outputs: Vec<DeviceProbe>,
    alone: Result<Vec<DeviceEntry>, AudioError>,
    both: Result<Vec<DeviceEntry>, AudioError>,
)
    requires
        call_ensures(device_list, (Ok(inputs), None), alone),
        call_ensures(device_list, (Ok(inputs), Some(Ok(outputs))), both),
    ensures
        alone matches Ok(list) && listed(list@) == entries(inputs@, DeviceKind::Input),
        both matches Ok(list) && listed(list@) == entries(inputs@, DeviceKind::Input) + entries(
            outputs@,
            DeviceKind::Loopback,
        ),
{
}

/// Mixing makes one sample of each frame, in order; the last frame may be
/// incomplete. Audio of one channel is left as it is.
pub proof fn mixing_keeps_the_frames<S: Copy, F: Fn(&[S]) -> S>(
    interleaved: &[S],
    channels: usize,
    mix: &F,
    r: Vec<S>,
    i: int,
)
    requires
        call_ensures(mix_down::<S, F>, (interleaved, channels, mix), r),
    ensures
        channels <= 1 ==> r@ == interleaved@,
        channels > 1 && interleaved@.len() == 0 ==> r@.len() == 0,
        channels > 1 && interleaved@.len() > 0 ==> (r@.len() - 1) * channels < interleaved@.len()
            <= r@.len() * channels,
        channels > 1 && 0 <= i < r@.len() ==> exists|f: &[S]|
            f@ == frame(interleaved@, channels as int, i) && #[trigger] mix.ensures((f,), r@[i]),
{
    if channels > 1 {
        if interleaved@.len() > 0 {
            frames_are_all_of_the_audio(interleaved@, channels as int, 0);
        }
        if 0 <= i < r@.len() {
            assert(mixed(*mix, frame(interleaved@, channels as int, i), r@[i]));
        }
    }
}

/// What is taken from the front of a buffer and put back in front of the rest is
/// the buffer as it was.
pub proof fn taking_and_putting_back<S: Copy>(
    buffer: &mut Vec<S>,
    n: usize,
    front: Vec<S>,
    whole: &mut Vec<S>,
    rest: &[S],
)
    requires
        n <= old(buffer)@.len(),
        call_ensures(drain_front::<S>, (buffer, n), front),
        old(whole)@ == front@,
        rest@ == final(buffer)@,
        call_ensures(extend::<S>, (whole, rest), ()),
    ensures
        front@.len() == n,
        final(whole)@ == old(buffer)@,
{
    assert(final(whole)@ =~= old(buffer)@);
}

/// A model is loaded once: the first call for a path keeps what was loaded, and
/// the next one gives the same and changes nothing.
pub proof fn a_model_is_loaded_once<C, F: FnOnce(&str) -> Result<C, String>>(
    cache: &mut ModelCache<C>,
    path: &str,
    load: F,
    first: Result<&C, AudioError>,
    later: &mut ModelCache<C>,
    again: F,
    second: Result<&C, AudioError>,
)
    requires
        call_ensures(ModelCache::<C>::get_or_load::<F>, (cache, path, load), first),
        first is Ok,
        old(later)@ == final(cache)@,
        call_ensures(ModelCache::<C>::get_or_load::<F>, (later, path, again), second),
    ensures
        second is Ok && *second->Ok_0 == *first->Ok_0,
        final(later)@ == old(later)@,
        final(cache)@.dom().contains(path@) && final(cache)@[path@] == *first->Ok_0,
        forall|other: Seq<char>|
            other != path@ ==> (final(cache)@.dom().contains(other) <==> #[trigger] old(
                cache)@.dom().contains(other)) && (old(cache)@.dom().contains(other) ==> final(
                cache)@[other] == old(cache)@[other]),
{
}

/// Nothing that the detector hears is lost on the way to the worker: a whole
/// utterance that is sent, followed by what stays in the detector, is all that
/// was heard. What is shown of an utterance in progress is its end, eight seconds
/// at most. All samples count towards the next partial result, until a result or
/// silence begins the count anew.
pub proof fn what_is_heard_is_sent_or_kept<S: Copy, F: Fn(&[S]) -> Level>(
    pipeline: &mut SpeechPipeline,
    vad: &mut EnergyVad<S>,
    samples: &[S],
    measure: &F,
    r: Option<InferJob<S>>,
)
    requires
        old(vad)@.inv(),
        old(vad)@.sample_rate >= 40,
        call_ensures(
            SpeechPipeline::feed::<S, F>,
            (pipeline, vad, samples, measure),
            r,
        ),
    ensures
        match r {
            Some(InferJob::Final(utterance)) => utterance@ + final(vad)@.speech == heard_so_far(
                old(vad)@,
                samples@,
            ),
            Some(InferJob::Partial(part)) => {
                let speech = final(vad)@.speech;
                let n = speech.len() as int;
                &&& final(vad)@.speaking
                &&& old(pipeline)@.since + samples@.len() >= old(pipeline)@.interval
                &&& part@.len() == (if n < 128_000 { n } else { 128_000 })
                &&& part@ == speech.subrange(n - part@.len(), n)
            },
            None => true,
        },
        final(pipeline)@.since == 0 || final(pipeline)@.since == old(pipeline)@.since
            + samples@.len(),
        r is Some ==> final(pipeline)@.since == 0,
        final(pipeline)@.min_volume == old(pipeline)@.min_volume,
        final(pipeline)@.interval == old(pipeline)@.interval,
{
    let (level, levels, utterance, peak) = choose|
        level: Level,
        levels: Seq<Level>,
        utterance: Option<Vec<S>>,
        peak: Level,
    |
        {
            &&& #[trigger] processed(
                old(vad)@,
                samples@,
                *measure,
                level,
                levels,
                final(vad)@,
                utterance,
            )
            &&& #[trigger] decided(
                old(pipeline)@,
                contents(utterance),
                *measure,
                peak,
                final(vad)@.speaking,
                final(vad)@.speech,
                samples@.len() as int,
                final(pipeline)@,
                r,
            )
        };
    let rate = old(vad)@.sample_rate;
    assert(rate * crate::vad::SPLIT_WINDOW_MS == rate * 50);
    match utterance {
        Some(u) => {
            an_utterance_is_kept_whole_or_discarded(
                old(pipeline)@,
                u@,
                *measure,
                peak,
                final(vad)@.speaking,
                final(vad)@.speech,
                samples@.len() as int,
                final(pipeline)@,
                r,
            );
            let all = heard_so_far(old(vad)@, samples@);
            if final(vad)@.was_split {
                a_split_comes_after_the_quietest_window(
                    old(vad)@,
                    samples@,
                    *measure,
                    level,
                    levels,
                    final(vad)@,
                    utterance,
                );
            }
            assert(u@ + final(vad)@.speech =~= all);
        },
        None => {
            speech_in_progress_is_shown_at_intervals(
                old(pipeline)@,
                *measure,
                peak,
                final(vad)@.speaking,
                final(vad)@.speech,
                samples@.len() as int,
                final(pipeline)@,
                r,
            );
        },
    }
}

/// A model is found exactly when its token table is there and each of its three
/// parts is: some file that begins with the name of the part and ends with
/// `.onnx`. The files that are found are such files.
pub proof fn a_complete_model_is_found(
    dir: &str,
    names: Vec<String>,
    has_tokens: bool,
    r: Result<SherpaModelFiles, AudioError>,
    e: int,
    d: int,
    j: int,
)
    requires
        call_ensures(SherpaModelFiles::locate, (dir, Ok(names), has_tokens), r),
        0 <= e < names@.len(),
        0 <= d < names@.len(),
        0 <= j < names@.len(),
        begins_with(names@[e]@, "encoder"@) && finishes_with(names@[e]@, ".onnx"@),
        begins_with(names@[d]@, "decoder"@) && finishes_with(names@[d]@, ".onnx"@),
        begins_with(names@[j]@, "joiner"@) && finishes_with(names@[j]@, ".onnx"@),
    ensures
        r is Ok <==> has_tokens,
        r matches Ok(files) ==> {
            &&& begins_with(files.encoder@, "encoder"@) && finishes_with(files.encoder@, ".onnx"@)
            &&& begins_with(files.decoder@, "decoder"@) && finishes_with(files.decoder@, ".onnx"@)
            &&& begins_with(files.joiner@, "joiner"@) && finishes_with(files.joiner@, ".onnx"@)
            &&& holds_text(names@[e]@, "int8"@) ==> holds_text(files.encoder@, "int8"@)
            &&& holds_text(names@[d]@, "int8"@) ==> holds_text(files.decoder@, "int8"@)
            &&& holds_text(names@[j]@, "int8"@) ==> holds_text(files.joiner@, "int8"@)
            &&& files.tokens@ == "tokens.txt"@
        },
{
    let all = texts(names@);
    let _ = the_best_file_is_picked(all, "encoder"@, e);
    let _ = the_best_file_is_picked(all, "decoder"@, d);
    let _ = the_best_file_is_picked(all, "joiner"@, j);
}

/// The texts of segments in a row are joined without anything between them, so
/// that it makes no difference where the segments are parted.
pub proof fn segments_are_joined_in_order(
    first: &Vec<Option<String>>,
    second: &Vec<Option<String>>,
    both: &Vec<Option<String>>,
    a: String,
    b: String,
    ab: String,
)
    requires
        both@ == first@ + second@,
        call_ensures(join_segments, (first,), a),
        call_ensures(join_segments, (second,), b),
        call_ensures(join_segments, (both,), ab),
    ensures
        ab@ == a@ + b@,
        first@.len() == 1 ==> a@ == (match first@[0] {
            Some(text) => trimmed(text@),
            None => Seq::empty(),
        }),
{
    let text = match first@[0] {
        Some(text) => text,
        None => a,
    };
    transcripts_add_up(first@, second@, text);
    if first@.len() == 1 {
        assert(first@ =~= seq![first@[0]]);
        assert(a@ =~= (match first@[0] {
            Some(text) => trimmed(text@),
            None => Seq::empty(),
        }));
    }
}

} // verus!

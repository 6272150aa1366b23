//! A transcription session: what a configuration asks for, what changes while
//! it runs, and what is told of its course.

use crate::capture::Command;
use crate::engine_sherpa::silero_error;
use crate::error::{error_text, shown, AudioError};
use crate::level::Level;
use crate::text::{concat2, concat3};
use crate::transcriber::{unavailable_message, Build, Engine};
use vstd::prelude::*;

verus! {

/// The configuration of a module, as far as it is set.
pub struct MicConfig {
    pub enabled: Option<bool>,
    pub device: Option<String>,
    pub engine: Option<String>,
    pub language: Option<String>,
    pub vad_sensitivity: Option<Level>,
    pub silero_threshold: Option<Level>,
    pub min_volume: Option<Level>,
    pub max_segment_duration: Option<i64>,
    pub silence_duration_ms: Option<i64>,
    /// The interval between partial results, in samples.
    pub partial_interval: Option<usize>,
}

/// The configuration that all modules share, as far as it is set.
pub struct GlobalConfig {
    pub model_path: Option<String>,
    pub sherpa_model_dir: Option<String>,
    pub silero_vad_path: Option<String>,
}

/// The model to transcribe with.
pub enum EngineChoice {
    Whisper { model_path: String },
    Sherpa { model_dir: String },
}

/// The detector that cuts audio into utterances.
pub enum DetectorChoice {
    Energy,
    Silero { model_path: String, threshold: Level },
}

/// What a session is set to.
pub struct SessionSettings {
    pub engine: EngineChoice,
    pub detector: DetectorChoice,
    pub device: String,
    pub language: String,
    pub sensitivity: Level,
    pub min_volume: Level,
    pub max_segment_secs: u32,
    pub silence_duration_ms: u32,
    pub partial_interval_samples: usize,
}

/// The bit pattern of 0.01.
pub const DEFAULT_SENSITIVITY: u32 = 0x3c23_d70a;

/// The bit pattern of 0.5.
pub const DEFAULT_SILERO_THRESHOLD: u32 = 0x3f00_0000;

/// Seconds.
pub const DEFAULT_MAX_SEGMENT: i64 = 25;

/// Milliseconds.
pub const DEFAULT_SILENCE_MS: i64 = 800;

/// What a text is set to, or the given text.
pub open spec fn text_or(value: Option<String>, default: Seq<char>) -> Seq<char> {
    match value {
        Some(v) => v@,
        None => default,
    }
}

/// What a level is set to, or the level with the given bits.
pub open spec fn level_or(value: Option<Level>, default: u32) -> Level {
    match value {
        Some(v) => v,
        None => Level { bits: default },
    }
}

/// What a number is set to, or the given number.
pub open spec fn number_or(value: Option<i64>, default: i64) -> int {
    match value {
        Some(v) => v as int,
        None => default as int,
    }
}

/// The low 32 bits of a number.
pub open spec fn low_bits(n: int) -> int {
    n % 0x1_0000_0000
}

/// Whether a path is set: an empty one is not.
pub open spec fn is_set(path: Option<String>) -> bool {
    path matches Some(p) && p@.len() > 0
}

/// The text that is set, or the given text.
fn string_or(value: &Option<String>, default: &str) -> (r: String)
    ensures
        r@ == text_or(*value, default@),
{
    match value {
        Some(v) => v.clone(),
        None => default.to_owned(),
    }
}

/// The low 32 bits of a number.
fn truncate(n: i64) -> (r: u32)
    ensures
        r == low_bits(n as int),
{
    let wide: i128 = n as i128;
    let m: i128 = if wide < 0 { wide + 0x1_0000_0000_0000_0000 } else { wide };
    let low: i128 = m % 0x1_0000_0000;
    assert(low == low_bits(n as int));
    low as u32
}

/// Told when no Whisper model is set.
pub open spec fn no_model_message() -> Seq<char> {
    "Whisper model path not set. Download from https://huggingface.co/ggerganov/whisper.cpp/tree/main"@
}

/// The Whisper model that is set.
pub fn get_model_path(global: &GlobalConfig) -> (r: Result<String, AudioError>)
    ensures
        match r {
            Ok(path) => is_set(global.model_path) && path@ == global.model_path->0@,
            Err(e) => !is_set(global.model_path) && e.says_invalid_config(no_model_message()),
        },
{
    match &global.model_path {
        Some(path) => if !path.as_str().is_empty() {
            return Ok(path.clone());
        },
        None => {},
    }
    Err(
        AudioError::InvalidConfig(
            "Whisper model path not set. Download from https://huggingface.co/ggerganov/whisper.cpp/tree/main".to_owned(),
        ),
    )
}

/// A Whisper model has to be a file that is there.
pub fn check_model_file(path: &str, exists: bool) -> (r: Result<(), AudioError>)
    ensures
        match r {
            Ok(()) => exists,
            Err(e) => !exists && e.says_invalid_config(
                "Whisper model file not found: "@ + path@
                    + ". Download from https://huggingface.co/ggerganov/whisper.cpp/tree/main"@,
            ),
        },
{
    if exists {
        Ok(())
    } else {
        Err(
            AudioError::InvalidConfig(
                concat3(
                    "Whisper model file not found: ",
                    path,
                    ". Download from https://huggingface.co/ggerganov/whisper.cpp/tree/main",
                ),
            ),
        )
    }
}

/// A Silero model has to be a file that is there: the detector cannot be made
/// from anything else.
pub fn check_silero_file(path: &str, is_file: bool) -> (r: Result<(), AudioError>)
    ensures
        match r {
            Ok(()) => is_file,
            Err(e) => !is_file && e.says_io_error(
                "Failed to create Silero VAD from '"@ + path@ + "'"@,
            ),
        },
{
    if is_file {
        Ok(())
    } else {
        Err(silero_error(path))
    }
}

/// The sensitivity that a configuration asks for.
pub fn sensitivity(config: &MicConfig) -> (r: Level)
    ensures
        r == level_or(config.vad_sensitivity, DEFAULT_SENSITIVITY),
{
    match config.vad_sensitivity {
        Some(v) => v,
        None => Level { bits: DEFAULT_SENSITIVITY },
    }
}

/// The minimum volume that a configuration asks for, between zero and one.
pub fn min_volume(config: &MicConfig) -> (r: Level)
    ensures
        r == level_or(config.min_volume, 0).clamped_to_unit(),
{
    match config.min_volume {
        Some(v) => v.clamp_to_unit(),
        None => (Level { bits: 0 }).clamp_to_unit(),
    }
}

/// The language that a configuration asks for.
pub fn language(config: &MicConfig) -> (r: String)
    ensures
        r@ == text_or(config.language, "ja"@),
{
    string_or(&config.language, "ja")
}

/// Whether a configuration turns the capture on.
pub open spec fn turned_on(config: MicConfig) -> bool {
    match config.enabled {
        Some(on) => on,
        None => true,
    }
}

/// Whether a configuration turns the capture on.
pub fn is_enabled(config: &MicConfig) -> (r: bool)
    ensures
        r == turned_on(*config),
{
    match config.enabled {
        Some(on) => on,
        None => true,
    }
}

/// Whether `detector` is the one that a configuration asks for: Silero when its
/// model is set and sherpa-onnx is built in, energy otherwise.
pub open spec fn is_detector_for(
    detector: DetectorChoice,
    config: MicConfig,
    global: GlobalConfig,
    build: Build,
) -> bool {
    match detector {
        DetectorChoice::Silero { model_path, threshold } => {
            &&& build.sherpa
            &&& is_set(global.silero_vad_path)
            &&& model_path@ == global.silero_vad_path->0@
            &&& threshold == level_or(config.silero_threshold, DEFAULT_SILERO_THRESHOLD)
        },
        DetectorChoice::Energy => !build.sherpa || !is_set(global.silero_vad_path),
    }
}

/// The detector that a configuration asks for.
pub fn detector(config: &MicConfig, global: &GlobalConfig, build: Build) -> (r: DetectorChoice)
    ensures
        is_detector_for(r, *config, *global, build),
{
    match &global.silero_vad_path {
        Some(path) => if build.sherpa && !path.as_str().is_empty() {
            let threshold = match config.silero_threshold {
                Some(v) => v,
                None => Level { bits: DEFAULT_SILERO_THRESHOLD },
            };
            return DetectorChoice::Silero { model_path: path.clone(), threshold };
        },
        None => {},
    }
    DetectorChoice::Energy
}

/// Whether `engine` is the one that a configuration asks for: the one it names,
/// or the default of the build.
pub open spec fn is_asked_for(engine: Engine, config: MicConfig, build: Build) -> bool {
    let name = text_or(config.engine, ""@);
    &&& build.has(engine)
    &&& name.len() == 0 ==> engine == Engine::default_of(build)
    &&& name.len() != 0 ==> name == engine.name()
}

/// A configuration asks for one engine at most, and for one in any case when it
/// names none.
pub proof fn one_engine_is_asked_for(config: MicConfig, build: Build, a: Engine, b: Engine)
    requires
        build.has_engine(),
    ensures
        is_asked_for(a, config, build) && is_asked_for(b, config, build) ==> a == b,
        text_or(config.engine, ""@).len() == 0 ==> is_asked_for(
            Engine::default_of(build),
            config,
            build,
        ),
{
    reveal_strlit("whisper");
    reveal_strlit("sherpa");
}

/// Whether the settings are those that a configuration asks for, engine and
/// detector apart.
pub open spec fn follow(settings: SessionSettings, config: MicConfig) -> bool {
    let silence = number_or(config.silence_duration_ms, DEFAULT_SILENCE_MS);
    &&& settings.device@ == text_or(config.device, ""@)
    &&& settings.language@ == text_or(config.language, "ja"@)
    &&& settings.sensitivity == level_or(config.vad_sensitivity, DEFAULT_SENSITIVITY)
    &&& settings.min_volume == level_or(config.min_volume, 0).clamped_to_unit()
    &&& settings.max_segment_secs == low_bits(
        number_or(config.max_segment_duration, DEFAULT_MAX_SEGMENT),
    )
    &&& settings.silence_duration_ms == low_bits(
        if silence < 0 {
            0
        } else {
            silence
        },
    )
    &&& settings.partial_interval_samples == (match config.partial_interval {
        Some(n) => n,
        None => 0,
    })
}

/// Whether a whole number fits 32 bits without a sign.
pub open spec fn fits_u32(n: i64) -> bool {
    0 <= n <= 0xffff_ffff
}

/// Settings that follow a configuration are what it says, where it says anything:
/// numbers that fit as they are, negative silence as none, the minimum volume
/// between zero and one. Otherwise the device is the default one, the language is
/// Japanese, the sensitivity is 0.01, every volume will do, a segment lasts 25 s
/// at most, 800 ms of silence end it, and there are no partial results.
pub proof fn settings_are_what_was_configured(settings: SessionSettings, config: MicConfig)
    requires
        follow(settings, config),
    ensures
        match config.device {
            Some(device) => settings.device@ == device@,
            None => settings.device@ == ""@,
        },
        match config.language {
            Some(language) => settings.language@ == language@,
            None => settings.language@ == "ja"@,
        },
        match config.vad_sensitivity {
            Some(level) => settings.sensitivity == level,
            None => settings.sensitivity.bits == 0x3c23_d70a,
        },
        match config.min_volume {
            Some(level) => settings.min_volume == level.clamped_to_unit(),
            None => settings.min_volume.bits == 0,
        },
        match config.max_segment_duration {
            Some(n) => fits_u32(n) ==> settings.max_segment_secs == n,
            None => settings.max_segment_secs == 25,
        },
        config.max_segment_duration matches Some(n) ==> (settings.max_segment_secs - n)
            % 0x1_0000_0000 == 0,
        match config.silence_duration_ms {
            Some(n) => {
                &&& fits_u32(n) ==> settings.silence_duration_ms == n
                &&& n <= 0 ==> settings.silence_duration_ms == 0
                &&& n > 0 ==> (settings.silence_duration_ms - n) % 0x1_0000_0000 == 0
            },
            None => settings.silence_duration_ms == 800,
        },
        match config.partial_interval {
            Some(n) => settings.partial_interval_samples == n,
            None => settings.partial_interval_samples == 0,
        },
{
    crate::level::clamping_moves_only_what_is_outside(Level { bits: 0 });
}

/// Capture is on unless it is turned off. A configuration asks for the engine
/// that it names, and for the default one when it names none or the empty name;
/// in either case only for one that is built in.
pub proof fn the_named_engine_is_asked_for(engine: Engine, config: MicConfig, build: Build)
    ensures
        turned_on(config) <==> config.enabled != Some(false),
        is_asked_for(engine, config, build) ==> build.has(engine),
        match config.engine {
            Some(name) => {
                &&& name@.len() == 0 ==> (is_asked_for(engine, config, build) <==> build.has(engine)
                    && engine == Engine::default_of(build))
                &&& name@.len() > 0 ==> (is_asked_for(engine, config, build) <==> build.has(engine)
                    && name@ == engine.name())
            },
            None => is_asked_for(engine, config, build) <==> build.has(engine) && engine
                == Engine::default_of(build),
        },
{
    reveal_strlit("");
}

/// The Silero detector is taken exactly when its model is set and sherpa-onnx is
/// built in: with that model, and the set threshold or 0.5.
pub proof fn the_detector_is_the_one_configured(
    detector: DetectorChoice,
    config: MicConfig,
    global: GlobalConfig,
    build: Build,
)
    requires
        is_detector_for(detector, config, global, build),
    ensures
        (detector is Silero) <==> build.sherpa && (global.silero_vad_path matches Some(p) && p@.len()
            > 0),
        detector matches DetectorChoice::Silero { model_path, threshold } ==> {
            &&& global.silero_vad_path matches Some(p) && model_path@ == p@
            &&& match config.silero_threshold {
                Some(level) => threshold == level,
                None => threshold.bits == 0x3f00_0000,
            }
        },
{
}

/// What is told when no Whisper model is set, and when a path counts as set.
pub proof fn a_path_is_set_unless_empty(path: Option<String>)
    ensures
        is_set(path) <==> (path matches Some(p) && p@.len() > 0),
        no_model_message()
            == "Whisper model path not set. Download from https://huggingface.co/ggerganov/whisper.cpp/tree/main"@,
{
}

/// Works out what a session is set to. A configuration that turns the capture
/// off asks for no session.
pub fn start_session(config: &MicConfig, global: &GlobalConfig, build: Build) -> (r: Result<
    Option<SessionSettings>,
    AudioError,
>)
    requires
        build.has_engine(),
    ensures
        match r {
            Ok(None) => !turned_on(*config),
            Ok(Some(settings)) => {
                &&& turned_on(*config)
                &&& follow(settings, *config)
                &&& match settings.engine {
                    EngineChoice::Whisper { model_path } => {
                        &&& is_asked_for(Engine::Whisper, *config, build)
                        &&& is_set(global.model_path)
                        &&& model_path@ == global.model_path->0@
                    },
                    EngineChoice::Sherpa { model_dir } => {
                        &&& is_asked_for(Engine::Sherpa, *config, build)
                        &&& model_dir@ == text_or(global.sherpa_model_dir, ""@)
                    },
                }
                &&& is_detector_for(settings.detector, *config, *global, build)
            },
            Err(e) => {
                &&& turned_on(*config)
                &&& {
                    ||| {
                        &&& !is_asked_for(Engine::Whisper, *config, build)
                        &&& !is_asked_for(Engine::Sherpa, *config, build)
                        &&& e.says_invalid_config(
                            unavailable_message(text_or(config.engine, ""@), build),
                        )
                    }
                    ||| {
                        &&& is_asked_for(Engine::Whisper, *config, build)
                        &&& !is_set(global.model_path)
                        &&& e.says_invalid_config(no_model_message())
                    }
                }
            },
        },
{
    if !is_enabled(config) {
        return Ok(None);
    }
    let name = string_or(&config.engine, "");
    let engine = match Engine::parse(name.as_str(), build) {
        Ok(Engine::Whisper) => match get_model_path(global) {
            Ok(model_path) => EngineChoice::Whisper { model_path },
            Err(e) => return Err(e),
        },
        Ok(Engine::Sherpa) => EngineChoice::Sherpa {
            model_dir: string_or(&global.sherpa_model_dir, ""),
        },
        Err(e) => return Err(e),
    };
    let max_segment: i64 = match config.max_segment_duration {
        Some(n) => n,
        None => DEFAULT_MAX_SEGMENT,
    };
    let silence: i64 = match config.silence_duration_ms {
        Some(n) => n,
        None => DEFAULT_SILENCE_MS,
    };
    let partial_interval_samples: usize = match config.partial_interval {
        Some(n) => n,
        None => 0,
    };
    Ok(
        Some(
            SessionSettings {
                engine,
                detector: detector(config, global, build),
                device: string_or(&config.device, ""),
                language: language(config),
                sensitivity: sensitivity(config),
                min_volume: min_volume(config),
                max_segment_secs: truncate(max_segment),
                silence_duration_ms: truncate(if silence < 0 { 0 } else { silence }),
                partial_interval_samples,
            },
        ),
    )
}

/// What changes in a running session.
pub struct SessionUpdate {
    pub sensitivity: Level,
    pub min_volume: Level,
    pub language: String,
    /// What the capture is told.
    pub command: Option<Command>,
}

/// Works out what a changed configuration means for a running session. A module
/// that is not started takes no notice; a capture that runs is paused or
/// resumed.
pub fn configs_changed(started: bool, has_thread: bool, config: &MicConfig) -> (r: Option<
    SessionUpdate,
>)
    ensures
        match r {
            Some(update) => {
                &&& started
                &&& update.sensitivity == level_or(config.vad_sensitivity, DEFAULT_SENSITIVITY)
                &&& update.min_volume == level_or(config.min_volume, 0).clamped_to_unit()
                &&& update.language@ == text_or(config.language, "ja"@)
                &&& update.command == (if !has_thread {
                    None
                } else if turned_on(*config) {
                    Some(Command::Resume)
                } else {
                    Some(Command::Pause)
                })
            },
            None => !started,
        },
{
    if !started {
        return None;
    }
    let command = if !has_thread {
        None
    } else if is_enabled(config) {
        Some(Command::Resume)
    } else {
        Some(Command::Pause)
    };
    Some(
        SessionUpdate {
            sensitivity: sensitivity(config),
            min_volume: min_volume(config),
            language: language(config),
            command,
        },
    )
}

/// Told first.
pub fn started_status() -> (r: &'static str)
    ensures
        r@ == "recording_started"@,
{
    "recording_started"
}

/// Told when the inference thread could not be started.
pub fn spawn_failure_status(cause: &str) -> (r: String)
    ensures
        r@ == "error: failed to spawn inference thread: "@ + cause@,
{
    concat2("error: failed to spawn inference thread: ", cause)
}

/// Whether the worker has loaded its model: what it said, or an error when it
/// was gone before saying anything.
pub fn worker_ready(said: Option<Result<(), AudioError>>) -> (r: Result<(), AudioError>)
    ensures
        match said {
            Some(answer) => r == answer,
            None => {
                r matches Err(e) && e.says_io_error(
                    "Inference worker exited before loading the model"@,
                )
            },
        },
{
    match said {
        Some(answer) => answer,
        None => Err(
            AudioError::IoError("Inference worker exited before loading the model".to_owned()),
        ),
    }
}

/// Told last: that the recording has stopped, or why it failed.
pub fn final_status(result: &Result<(), AudioError>) -> (r: String)
    ensures
        match *result {
            Ok(()) => r@ == "recording_stopped"@,
            Err(e) => r@ == "error: "@ + error_text(e),
        },
{
    match result {
        Ok(()) => "recording_stopped".to_owned(),
        Err(e) => {
            let text = shown(e);
            concat2("error: ", text.as_str())
        },
    }
}

} // verus!

use modular_agent_audio::capture::Command;
use modular_agent_audio::error::AudioError;
use modular_agent_audio::level::{Double, Level};
use modular_agent_audio::session::{
    check_model_file, check_silero_file, configs_changed, detector, final_status, get_model_path, is_enabled, language,
    min_volume, sensitivity, spawn_failure_status, start_session, started_status, worker_ready,
    DetectorChoice, EngineChoice, GlobalConfig, MicConfig, SessionSettings,
};
use modular_agent_audio::transcriber::Build;

const BOTH: Build = Build { transcribe: true, sherpa: true };
const WHISPER: Build = Build { transcribe: true, sherpa: false };
const SHERPA: Build = Build { transcribe: false, sherpa: true };

fn level(x: f32) -> Level {
    Level { bits: x.to_bits() }
}

fn value(l: Level) -> f32 {
    f32::from_bits(l.bits)
}

fn unset() -> MicConfig {
    MicConfig {
        enabled: None,
        device: None,
        engine: None,
        language: None,
        vad_sensitivity: None,
        silero_threshold: None,
        min_volume: None,
        max_segment_duration: None,
        silence_duration_ms: None,
        partial_interval: None,
    }
}

fn with_model(path: &str) -> GlobalConfig {
    GlobalConfig {
        model_path: Some(path.to_string()),
        sherpa_model_dir: None,
        silero_vad_path: None,
    }
}

fn settings(config: &MicConfig, global: &GlobalConfig, build: Build) -> SessionSettings {
    start_session(config, global, build).unwrap().unwrap()
}

fn config_message(e: AudioError) -> String {
    match e {
        AudioError::InvalidConfig(m) => m,
        _ => panic!("expected a configuration error"),
    }
}

#[test]
fn defaults_are_those_of_the_documentation() {
    let s = settings(&unset(), &with_model("ggml.bin"), BOTH);
    assert!(matches!(&s.engine, EngineChoice::Whisper { model_path } if model_path == "ggml.bin"));
    assert!(matches!(s.detector, DetectorChoice::Energy));
    assert_eq!(s.device, "");
    assert_eq!(s.language, "ja");
    assert_eq!(value(s.sensitivity), 0.01);
    assert_eq!(value(s.min_volume), 0.0);
    assert_eq!(s.max_segment_secs, 25);
    assert_eq!(s.silence_duration_ms, 800);
    assert_eq!(s.partial_interval_samples, 0);
}

#[test]
fn settings_follow_the_configuration() {
    let config = MicConfig {
        enabled: Some(true),
        device: Some("wasapi:1".to_string()),
        engine: Some("sherpa".to_string()),
        language: Some("en".to_string()),
        vad_sensitivity: Some(level(0.2)),
        silero_threshold: Some(level(0.7)),
        min_volume: Some(level(3.0)),
        max_segment_duration: Some(12),
        silence_duration_ms: Some(450),
        partial_interval: Some(8000),
    };
    let global = GlobalConfig {
        model_path: None,
        sherpa_model_dir: Some("/m".to_string()),
        silero_vad_path: Some("/v".to_string()),
    };
    let s = settings(&config, &global, BOTH);
    assert!(matches!(&s.engine, EngineChoice::Sherpa { model_dir } if model_dir == "/m"));
    match &s.detector {
        DetectorChoice::Silero { model_path, threshold } => {
            assert_eq!(model_path, "/v");
            assert_eq!(value(*threshold), 0.7);
        }
        DetectorChoice::Energy => panic!("expected Silero"),
    }
    assert_eq!(s.device, "wasapi:1");
    assert_eq!(s.language, "en");
    assert_eq!(value(s.sensitivity), 0.2);
    assert_eq!(value(s.min_volume), 1.0);
    assert_eq!(s.max_segment_secs, 12);
    assert_eq!(s.silence_duration_ms, 450);
    assert_eq!(s.partial_interval_samples, 8000);
}

#[test]
fn numbers_out_of_range_wrap_or_stop_at_zero() {
    for n in [-1i64, 1 << 32, i64::MIN, i64::MAX, -25] {
        let config = MicConfig {
            max_segment_duration: Some(n),
            silence_duration_ms: Some(n),
            ..unset()
        };
        let s = settings(&config, &with_model("m"), BOTH);
        assert_eq!(s.max_segment_secs, n as u32);
        assert_eq!(s.silence_duration_ms, n.max(0) as u32);
    }
}

#[test]
fn a_disabled_module_has_no_session() {
    let config = MicConfig {
        enabled: Some(false),
        engine: Some("nonsense".to_string()),
        ..unset()
    };
    assert!(!is_enabled(&config));
    assert!(start_session(&config, &with_model(""), BOTH).unwrap().is_none());
}

#[test]
fn the_default_engine_follows_the_build() {
    let global = with_model("m");
    assert!(matches!(settings(&unset(), &global, WHISPER).engine, EngineChoice::Whisper { .. }));
    assert!(matches!(settings(&unset(), &global, SHERPA).engine, EngineChoice::Sherpa { .. }));
}

#[test]
fn whisper_needs_a_model() {
    let wanted = "Whisper model path not set. Download from https://huggingface.co/ggerganov/whisper.cpp/tree/main";
    let unset_model =
        GlobalConfig { model_path: None, sherpa_model_dir: None, silero_vad_path: None };
    assert_eq!(config_message(get_model_path(&unset_model).unwrap_err()), wanted);
    assert_eq!(config_message(get_model_path(&with_model("")).unwrap_err()), wanted);
    assert_eq!(get_model_path(&with_model("m")).unwrap(), "m");
    let e = start_session(&unset(), &unset_model, BOTH).err().unwrap();
    assert_eq!(config_message(e), wanted);
    assert!(start_session(&unset(), &unset_model, SHERPA).is_ok());
}

#[test]
fn an_unknown_engine_is_refused() {
    let config = MicConfig { engine: Some("vosk".to_string()), ..unset() };
    let e = start_session(&config, &with_model("m"), WHISPER).err().unwrap();
    assert_eq!(
        config_message(e),
        "Transcription engine 'vosk' is not available in this build. Available: whisper"
    );
}

#[test]
fn a_model_has_to_be_there() {
    assert!(check_model_file("m", true).is_ok());
    assert_eq!(
        config_message(check_model_file("m", false).unwrap_err()),
        "Whisper model file not found: m. Download from https://huggingface.co/ggerganov/whisper.cpp/tree/main"
    );
}

#[test]
fn a_silero_model_has_to_be_a_file() {
    assert!(check_silero_file("v", true).is_ok());
    match check_silero_file("v", false) {
        Err(AudioError::IoError(m)) => assert_eq!(m, "Failed to create Silero VAD from 'v'"),
        _ => panic!("expected an error"),
    }
}

#[test]
fn silero_needs_its_model_and_its_engine() {
    let mut global = with_model("m");
    global.silero_vad_path = Some(String::new());
    assert!(matches!(detector(&unset(), &global, BOTH), DetectorChoice::Energy));
    global.silero_vad_path = Some("v".to_string());
    assert!(matches!(detector(&unset(), &global, WHISPER), DetectorChoice::Energy));
    match detector(&unset(), &global, BOTH) {
        DetectorChoice::Silero { threshold, .. } => assert_eq!(value(threshold), 0.5),
        DetectorChoice::Energy => panic!("expected Silero"),
    }
}

#[test]
fn single_values_can_be_asked_for() {
    let config = MicConfig { min_volume: Some(level(-0.5)), ..unset() };
    assert_eq!(value(min_volume(&config)), 0.0);
    assert_eq!(value(sensitivity(&config)), 0.01);
    assert_eq!(language(&config), "ja");
    assert!(is_enabled(&config));
}

#[test]
fn a_changed_configuration_pauses_or_resumes() {
    let on = unset();
    let off = MicConfig { enabled: Some(false), language: Some("en".to_string()), ..unset() };
    assert!(configs_changed(false, true, &on).is_none());
    assert_eq!(configs_changed(true, true, &on).unwrap().command, Some(Command::Resume));
    let update = configs_changed(true, true, &off).unwrap();
    assert_eq!(update.command, Some(Command::Pause));
    assert_eq!(update.language, "en");
    assert_eq!(value(update.sensitivity), 0.01);
    assert_eq!(value(update.min_volume), 0.0);
    assert_eq!(configs_changed(true, false, &off).unwrap().command, None);
}

#[test]
fn the_course_of_a_session_is_told() {
    assert_eq!(started_status(), "recording_started");
    assert_eq!(
        spawn_failure_status("no threads"),
        "error: failed to spawn inference thread: no threads"
    );
    assert_eq!(final_status(&Ok(())), "recording_stopped");
}

#[test]
fn failures_are_told_as_the_framework_shows_them() {
    for (ours, theirs) in [
        (
            AudioError::InvalidConfig("a".to_string()),
            modular_agent_core::Error::InvalidConfig("a".to_string()),
        ),
        (
            AudioError::IoError("b {}".to_string()),
            modular_agent_core::Error::IoError("b {}".to_string()),
        ),
        (
            AudioError::InvalidValue("c".to_string()),
            modular_agent_core::Error::InvalidValue("c".to_string()),
        ),
    ] {
        assert_eq!(final_status(&Err(ours)), format!("error: {}", theirs));
    }
    assert_eq!(final_status(&Err(AudioError::IoError("x".to_string()))), "error: IO error: x");
    assert_eq!(
        final_status(&Err(AudioError::InvalidConfig("x".to_string()))),
        "error: Configuration error: x"
    );
    assert_eq!(
        final_status(&Err(AudioError::InvalidValue("x".to_string()))),
        "error: Invalid x value"
    );
}

#[test]
fn a_worker_that_says_nothing_has_failed() {
    assert!(worker_ready(Some(Ok(()))).is_ok());
    match worker_ready(Some(Err(AudioError::IoError("x".to_string())))) {
        Err(AudioError::IoError(m)) => assert_eq!(m, "x"),
        _ => panic!("expected the worker's own error"),
    }
    match worker_ready(None) {
        Err(AudioError::IoError(m)) => {
            assert_eq!(m, "Inference worker exited before loading the model")
        }
        _ => panic!("expected an error"),
    }
}

#[test]
fn a_volume_stays_between_zero_and_one() {
    let clamped = |x: f64| f64::from_bits(Double { bits: x.to_bits() }.clamp_to_unit().bits);
    assert_eq!(clamped(1.5), 1.0);
    assert_eq!(clamped(-0.5), 0.0);
    assert_eq!(clamped(0.25), 0.25);
}

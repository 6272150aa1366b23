use std::sync::Arc;

use modular_agent_audio::engine_sherpa::{
    self, pick, recognized_text, recognizer_error, recognizer_settings, silero_error, silero_settings,
    ModelPaths, SherpaModelFiles, MODEL_DOWNLOAD_URL,
};
use modular_agent_audio::engine_whisper::{
    self, inference_error, join_segments, load_error, state_error, whisper_settings, ModelCache,
    WhisperSettings,
};
use modular_agent_audio::error::AudioError;
use modular_agent_audio::level::Level;
use modular_agent_audio::transcriber::{Build, Engine};

const BOTH: Build = Build { transcribe: true, sherpa: true };
const WHISPER: Build = Build { transcribe: true, sherpa: false };
const SHERPA: Build = Build { transcribe: false, sherpa: true };

fn config_message(e: AudioError) -> String {
    match e {
        AudioError::InvalidConfig(m) => m,
        _ => panic!("expected a configuration error"),
    }
}

fn io_message(e: AudioError) -> String {
    match e {
        AudioError::IoError(m) => m,
        _ => panic!("expected an input or output error"),
    }
}

fn names(list: &[&str]) -> Vec<String> {
    list.iter().map(|n| n.to_string()).collect()
}

#[test]
fn default_engine_prefers_whisper() {
    assert_eq!(Engine::default_engine(BOTH), Engine::Whisper);
    assert_eq!(Engine::default_engine(WHISPER), Engine::Whisper);
    assert_eq!(Engine::default_engine(SHERPA), Engine::Sherpa);
}

#[test]
fn engines_are_found_by_name() {
    assert_eq!(Engine::parse("", BOTH).unwrap(), Engine::Whisper);
    assert_eq!(Engine::parse("", SHERPA).unwrap(), Engine::Sherpa);
    assert_eq!(Engine::parse("whisper", BOTH).unwrap(), Engine::Whisper);
    assert_eq!(Engine::parse("sherpa", BOTH).unwrap(), Engine::Sherpa);
}

#[test]
fn an_engine_that_is_not_built_in_is_refused() {
    assert_eq!(
        config_message(Engine::parse("sherpa", WHISPER).unwrap_err()),
        "Transcription engine 'sherpa' is not available in this build. Available: whisper"
    );
    assert_eq!(
        config_message(Engine::parse("whisper", SHERPA).unwrap_err()),
        "Transcription engine 'whisper' is not available in this build. Available: sherpa"
    );
    assert_eq!(
        config_message(Engine::parse("Whisper", BOTH).unwrap_err()),
        "Transcription engine 'Whisper' is not available in this build. Available: whisper, sherpa"
    );
}

#[test]
fn int8_files_come_first() {
    let files = names(&[
        "encoder.fp16.onnx",
        "encoder.onnx",
        "encoder-1.int8.onnx",
        "encoder-2.int8.onnx",
        "encoder.txt",
        "my-encoder.int8.onnx",
    ]);
    assert_eq!(pick(&files, "encoder"), Some("encoder-1.int8.onnx".to_string()));
    assert_eq!(pick(&files[..2].to_vec(), "encoder"), Some("encoder.onnx".to_string()));
    assert_eq!(pick(&files[..1].to_vec(), "encoder"), Some("encoder.fp16.onnx".to_string()));
    assert_eq!(pick(&files, "decoder"), None);
}

#[test]
fn a_model_is_located() {
    let listing = names(&["joiner.onnx", "decoder.onnx", "encoder.onnx", "encoder.int8.onnx"]);
    let files = SherpaModelFiles::locate("/m", Ok(listing), true).unwrap();
    assert_eq!(files.encoder, "encoder.int8.onnx");
    assert_eq!(files.decoder, "decoder.onnx");
    assert_eq!(files.joiner, "joiner.onnx");
    assert_eq!(files.tokens, "tokens.txt");
}

#[test]
fn what_is_missing_from_a_model_is_told() {
    let refused = |list: &[&str], has_tokens: bool| {
        config_message(SherpaModelFiles::locate("/m", Ok(names(list)), has_tokens).err().unwrap())
    };
    assert_eq!(refused(&[], false), "tokens.txt not found in sherpa_model_dir '/m'");
    let missing = |part: &str| {
        format!("No {}*.onnx in sherpa_model_dir '/m'. Download from {}", part, MODEL_DOWNLOAD_URL)
    };
    assert_eq!(refused(&[], true), missing("encoder"));
    assert_eq!(refused(&["encoder.onnx"], true), missing("decoder"));
    assert_eq!(refused(&["encoder.onnx", "decoder.onnx"], true), missing("joiner"));
    let unread = SherpaModelFiles::locate("/m", Err("denied".to_string()), true).err().unwrap();
    assert_eq!(
        config_message(unread),
        format!("Cannot read sherpa_model_dir '/m': denied. Download from {}", MODEL_DOWNLOAD_URL)
    );
}

#[test]
fn the_recognizer_is_a_greedy_transducer() {
    let paths = ModelPaths {
        encoder: "e".to_string(),
        decoder: "d".to_string(),
        joiner: "j".to_string(),
        tokens: "t".to_string(),
    };
    let settings = recognizer_settings(paths, 5);
    assert_eq!(settings.paths.encoder, "e");
    assert_eq!(settings.num_threads, 5);
    assert_eq!(settings.provider, "cpu");
    assert_eq!(settings.model_type, "transducer");
    assert_eq!(settings.decoding_method, "greedy_search");
    assert_eq!(
        io_message(recognizer_error("/m/e.onnx")),
        "Failed to create sherpa-onnx recognizer from '/m/e.onnx'"
    );
}

#[test]
fn recognized_texts_are_trimmed() {
    assert_eq!(recognized_text(Some(" \u{3000}はい、 どうぞ\n")), "はい、 どうぞ");
    assert_eq!(recognized_text(Some(" \t ")), "");
    assert_eq!(recognized_text(None), "");
}

#[test]
fn the_silero_detector_is_set_up() {
    let settings = silero_settings("vad.onnx", Level { bits: 0.5f32.to_bits() }, 12);
    assert_eq!(settings.model, "vad.onnx");
    assert_eq!(f32::from_bits(settings.threshold.bits), 0.5);
    assert_eq!(f32::from_bits(settings.min_silence_duration.bits), 0.35);
    assert_eq!(f32::from_bits(settings.min_speech_duration.bits), 0.25);
    assert_eq!(f32::from_bits(settings.buffer_secs.bits), 30.0);
    assert_eq!(settings.window_size, 512);
    assert_eq!(settings.max_speech_secs, 12);
    assert_eq!(settings.sample_rate, 16_000);
    assert_eq!(settings.num_threads, 1);
    assert_eq!(settings.provider, "cpu");
    assert_eq!(io_message(silero_error("x")), "Failed to create Silero VAD from 'x'");
}

#[test]
fn models_are_kept_by_path() {
    let mut cache: ModelCache<u32> = ModelCache::new();
    assert_eq!(cache.get("a"), None);
    assert_eq!(*cache.get_or_load("a", |_: &str| Ok(1)).unwrap(), 1);
    assert_eq!(*cache.get_or_load("b", |p: &str| Ok(p.len() as u32 + 1)).unwrap(), 2);
    assert_eq!(cache.get("a"), Some(&1));
    assert_eq!(cache.get("b"), Some(&2));
    assert_eq!(cache.get(""), None);
}

#[test]
fn a_kept_model_is_not_loaded_again() {
    let mut cache: ModelCache<Arc<u32>> = ModelCache::new();
    let first = cache.get_or_load("a", |_: &str| Ok(Arc::new(7))).unwrap().clone();
    let again = cache.get_or_load("a", |_: &str| panic!("loaded twice")).unwrap().clone();
    assert!(Arc::ptr_eq(&first, &again));
}

#[test]
fn a_model_that_fails_to_load_is_not_kept() {
    let mut cache: ModelCache<u32> = ModelCache::new();
    cache.get_or_load("b", |_: &str| Ok(5)).unwrap();
    let e = cache.get_or_load("a", |_: &str| Err("broken".to_string())).unwrap_err();
    assert_eq!(io_message(e), "Failed to load Whisper model 'a': broken");
    assert_eq!(cache.get("a"), None);
    assert_eq!(cache.get("b"), Some(&5));
    assert_eq!(*cache.get_or_load("a", |_: &str| Ok(6)).unwrap(), 6);
}

#[test]
fn whisper_is_given_the_samples_and_its_settings() {
    let samples = [1u32, 2, 3];
    let text = engine_whisper::transcribe(&samples, "en", 4, |settings: &WhisperSettings, s: &[u32]| {
        assert_eq!(settings.language, "en");
        assert_eq!(settings.n_threads, 4);
        assert_eq!(s, [1, 2, 3]);
        Ok(vec![Some(" a ".to_string()), None, Some("b".to_string())])
    });
    assert_eq!(text.unwrap(), "ab");
    let failed = engine_whisper::transcribe(&samples, "en", 4, |_: &WhisperSettings, _: &[u32]| {
        Err("boom".to_string())
    });
    assert_eq!(io_message(failed.unwrap_err()), "Whisper inference failed: boom");
}

#[test]
fn the_recognizer_is_given_the_same_in_any_language() {
    for language in ["ja", "en", ""] {
        let text = engine_sherpa::transcribe(&[4u32, 5], language, |rate: i32, s: &[u32]| {
            assert_eq!(rate, 16_000);
            assert_eq!(s, [4, 5]);
            Some(" yes\n".to_string())
        });
        assert_eq!(text.unwrap(), "yes");
    }
    let none = engine_sherpa::transcribe(&[4u32], "ja", |_: i32, _: &[u32]| None);
    assert_eq!(none.unwrap(), "");
}

#[test]
fn whisper_errors_are_told() {
    assert_eq!(io_message(load_error("p", "c")), "Failed to load Whisper model 'p': c");
    assert_eq!(io_message(state_error("c")), "Failed to create whisper state: c");
    assert_eq!(io_message(inference_error("c")), "Whisper inference failed: c");
}

#[test]
fn whisper_is_set_up_for_single_segments() {
    let settings = whisper_settings("ja", 4);
    assert_eq!(settings.best_of, 1);
    assert_eq!(settings.language, "ja");
    assert!(!settings.print_special && !settings.print_progress);
    assert!(!settings.print_realtime && !settings.print_timestamps);
    assert!(settings.single_segment && settings.no_context);
    assert_eq!(settings.n_threads, 4);
}

#[test]
fn segments_are_joined_without_their_white_space() {
    let segments = vec![
        Some(" Hello, ".to_string()),
        None,
        Some("\n".to_string()),
        Some("big world.\u{a0}".to_string()),
    ];
    assert_eq!(join_segments(&segments), "Hello,big world.");
    assert_eq!(join_segments(&Vec::new()), "");
}

use modular_agent_audio::level::Level;
use modular_agent_audio::vad::{find_quietest, loudest, EnergyVad, Heard};

const SAMPLE_RATE: u32 = 16000;

fn level(x: f32) -> Level {
    Level { bits: x.to_bits() }
}

fn value(l: Level) -> f32 {
    f32::from_bits(l.bits)
}

fn rms(samples: &[f32]) -> Level {
    if samples.is_empty() {
        return level(0.0);
    }
    let sum_sq: f32 = samples.iter().map(|s| s * s).sum();
    level((sum_sq / samples.len() as f32).sqrt())
}

fn silence(duration_ms: u32) -> Vec<f32> {
    vec![0.0; (SAMPLE_RATE as usize * duration_ms as usize) / 1000]
}

fn tone(duration_ms: u32, amplitude: f32, freq_hz: f32) -> Vec<f32> {
    let num_samples = (SAMPLE_RATE as usize * duration_ms as usize) / 1000;
    (0..num_samples)
        .map(|i| {
            let t = i as f32 / SAMPLE_RATE as f32;
            amplitude * (2.0 * std::f32::consts::PI * freq_hz * t).sin()
        })
        .collect()
}

#[test]
fn test_silence_only_produces_no_output() {
    let mut vad = EnergyVad::new(SAMPLE_RATE, level(0.01), 25);
    for _ in 0..100 {
        let chunk = silence(10);
        assert!(vad.process(&chunk, &rms).is_none());
    }
}

#[test]
fn test_short_speech_is_filtered() {
    let mut vad = EnergyVad::new(SAMPLE_RATE, level(0.01), 25);
    // 100ms of speech (< 300ms minimum)
    let speech = tone(100, 0.5, 440.0);
    vad.process(&speech, &rms);
    // Follow with enough silence to trigger end
    let sil = silence(1000);
    let result = vad.process(&sil, &rms);
    assert!(result.is_none(), "Short speech should be filtered");
}

#[test]
fn test_normal_utterance_detected() {
    let mut vad = EnergyVad::new(SAMPLE_RATE, level(0.01), 25);
    // 1 second of speech
    let speech = tone(1000, 0.5, 440.0);
    // Feed in 10ms chunks
    for chunk in speech.chunks(160) {
        let result = vad.process(chunk, &rms);
        assert!(result.is_none(), "Should not emit during speech");
    }
    // 900ms of silence (>= 800ms threshold)
    let sil = silence(900);
    let result = vad.process(&sil, &rms);
    assert!(result.is_some(), "Should emit after silence");
    let utterance = result.unwrap();
    // Should include pre-speech buffer + speech + trailing silence
    assert!(utterance.len() > SAMPLE_RATE as usize); // > 1 second
}

#[test]
fn test_force_split_at_max_duration() {
    let mut vad = EnergyVad::new(SAMPLE_RATE, level(0.01), 3); // 3 second max
    // Build 4s of speech with a quiet dip at 2.5s so the split point is predictable.
    let mut speech = tone(2500, 0.5, 440.0);
    speech.extend(tone(100, 0.02, 440.0)); // quiet 100ms at 2.5s
    speech.extend(tone(1400, 0.5, 440.0));
    let mut got_output = false;
    for chunk in speech.chunks(160) {
        if let Some(utterance) = vad.process(chunk, &rms) {
            got_output = true;
            // Split should occur at the quiet dip (~2.5-2.7s)
            let duration_secs = utterance.len() as f32 / SAMPLE_RATE as f32;
            assert!(
                duration_secs >= 2.0 && duration_secs <= 3.5,
                "Force-split utterance should be ~2.5-3s, got {}s",
                duration_secs
            );
            break;
        }
    }
    assert!(got_output, "Should have force-split");
    // VAD should still be in speaking state with remainder
    assert!(vad.is_speaking());
    assert!(!vad.current_speech().is_empty());
}

#[test]
fn test_force_split_carries_over_remainder() {
    let mut vad = EnergyVad::new(SAMPLE_RATE, level(0.01), 2); // 2 second max
    // Feed 2.5 seconds of speech
    let speech = tone(2500, 0.5, 440.0);
    let mut first_split = None;
    for chunk in speech.chunks(160) {
        if let Some(utterance) = vad.process(chunk, &rms) {
            first_split = Some(utterance);
            break;
        }
    }
    assert!(first_split.is_some(), "Should have force-split");

    // Now feed silence to end the carried-over remainder
    let sil = silence(1000);
    let result = vad.process(&sil, &rms);
    // The remainder may or may not be long enough (depends on split point)
    // But the VAD should not be in speaking state anymore
    if result.is_none() {
        // Remainder was too short, that's OK
        assert!(!vad.is_speaking() || vad.current_speech().len() < vad.min_speech_samples());
    }
}

#[test]
fn test_pre_speech_buffer_included() {
    let mut vad = EnergyVad::new(SAMPLE_RATE, level(0.01), 25);
    // Feed 200ms of quiet tone (below threshold but nonzero)
    let quiet = vec![0.001; (SAMPLE_RATE as usize * 200) / 1000];
    vad.process(&quiet, &rms);

    // Now speech
    let speech = tone(500, 0.5, 440.0);
    vad.process(&speech, &rms);

    // Silence to end
    let sil = silence(1000);
    let result = vad.process(&sil, &rms);
    assert!(result.is_some());
    let utterance = result.unwrap();
    // Should be longer than just the speech (includes pre-speech)
    let speech_only_samples = (SAMPLE_RATE as usize * 500) / 1000;
    assert!(
        utterance.len() > speech_only_samples,
        "Should include pre-speech buffer"
    );
}

#[test]
fn test_reset_clears_state() {
    let mut vad = EnergyVad::new(SAMPLE_RATE, level(0.01), 25);
    let speech = tone(500, 0.5, 440.0);
    vad.process(&speech, &rms);
    assert!(vad.is_speaking());

    vad.reset();
    assert!(!vad.is_speaking());
    assert!(vad.current_speech().is_empty());
    assert!(vad.pre_speech_len() == 0);
}

#[test]
fn test_set_threshold() {
    let mut vad = EnergyVad::new(SAMPLE_RATE, level(0.5), 25);
    // With high threshold, moderate speech should not trigger
    let speech = tone(1000, 0.1, 440.0);
    vad.process(&speech, &rms);
    assert!(!vad.is_speaking());

    // Lower threshold
    vad.set_threshold(level(0.01));
    vad.process(&speech, &rms);
    assert!(vad.is_speaking());
}

#[test]
fn test_peak_rms_returns_loudest_window() {
    // 500ms silence + 500ms tone (amplitude 0.5)
    let mut samples = silence(500);
    samples.extend(tone(500, 0.5, 440.0));
    let peak = value(EnergyVad::<f32>::peak_rms(&samples, SAMPLE_RATE, &rms));
    // Peak should reflect the tone portion, not diluted by silence
    assert!(
        peak > 0.3,
        "peak_rms should reflect loud portion, got {}",
        peak
    );
    // Average RMS would be much lower due to silence
    let avg = value(rms(&samples));
    assert!(
        peak > avg,
        "peak_rms ({}) should exceed average rms ({})",
        peak,
        avg
    );
}

#[test]
fn test_peak_rms_short_samples_fallback() {
    // Samples shorter than one 50ms window (800 samples at 16kHz)
    let short = tone(30, 0.5, 440.0); // 30ms = 480 samples
    let peak = value(EnergyVad::<f32>::peak_rms(&short, SAMPLE_RATE, &rms));
    let full_rms = value(rms(&short));
    assert!(
        (peak - full_rms).abs() < 0.001,
        "Short samples should fall back to full RMS"
    );
}

// Samples below are plain numbers and as loud as the largest of them.
fn loud(samples: &[u32]) -> Level {
    level(samples.iter().copied().max().unwrap_or(0) as f32)
}

#[test]
fn an_utterance_is_exactly_its_audio() {
    // At 1000 Hz: 200 samples before speech, 300 of speech at least, 800 of silence.
    let mut vad: EnergyVad<u32> = EnergyVad::new(1000, level(10.0), 25);
    let before: Vec<u32> = (0..250).map(|i| i % 7).collect();
    assert!(vad.process(&before, &loud).is_none());
    assert_eq!(vad.pre_speech_len(), 200);
    let speech: Vec<u32> = (100..400).collect();
    assert!(vad.process(&speech, &loud).is_none());
    let quiet = vec![1; 799];
    assert!(vad.process(&quiet, &loud).is_none());
    assert!(vad.is_speaking());
    let out = vad.process(&[2], &loud).unwrap();
    let mut expected = before[50..].to_vec();
    expected.extend(speech);
    expected.extend(quiet);
    expected.push(2);
    assert_eq!(out, expected);
    assert!(!vad.is_speaking());
    assert_eq!(vad.pre_speech_len(), 0);
    assert!(!vad.was_force_split());
}

#[test]
fn speech_one_sample_too_short_is_noise() {
    let mut vad: EnergyVad<u32> = EnergyVad::new(1000, level(10.0), 25);
    vad.process(&vec![50; 299], &loud);
    assert!(vad.process(&vec![0; 800], &loud).is_none());
    vad.process(&vec![50; 300], &loud);
    assert_eq!(vad.process(&vec![0; 800], &loud).unwrap().len(), 1100);
}

#[test]
fn silence_duration_can_be_set() {
    let mut vad: EnergyVad<u32> = EnergyVad::with_silence(1000, level(10.0), 25, 400);
    vad.process(&vec![50; 300], &loud);
    assert!(vad.process(&vec![0; 399], &loud).is_none());
    assert!(vad.process(&[0], &loud).is_some());
}

#[test]
fn nothing_is_lost_in_forced_splits() {
    let mut vad: EnergyVad<u32> = EnergyVad::new(1000, level(10.0), 3);
    let audio: Vec<u32> = (0..20_000u32).map(|i| 100 + (i * 37) % 101).collect();
    let mut out: Vec<u32> = Vec::new();
    let mut splits = 0;
    for chunk in audio.chunks(130) {
        if let Some(part) = vad.process(chunk, &loud) {
            assert!(part.len() >= vad.min_speech_samples());
            assert!(part.len() < 3000 + 130);
            out.extend(part);
            splits += 1;
        }
    }
    assert!(splits >= 5);
    out.extend_from_slice(vad.current_speech());
    assert_eq!(out, audio);
    assert!(vad.is_speaking());
}

#[test]
fn a_split_comes_after_the_quietest_window() {
    // At 1000 Hz windows are 50 samples, 25 apart, over the last 2000 samples.
    let mut vad: EnergyVad<u32> = EnergyVad::new(1000, level(10.0), 3);
    let mut audio = vec![90; 3000];
    for s in audio[2000..2060].iter_mut() {
        *s = 20;
    }
    let out = vad.process(&audio, &loud).unwrap();
    assert_eq!(out.len(), 2050);
    assert_eq!(vad.current_speech().len(), 950);
}

#[test]
fn a_split_without_any_level_takes_it_all() {
    let nan = |samples: &[u32]| -> Level {
        if samples.len() == 50 {
            level(f32::NAN)
        } else {
            level(50.0)
        }
    };
    let mut vad: EnergyVad<u32> = EnergyVad::new(1000, level(10.0), 3);
    assert_eq!(vad.process(&vec![5; 3000], &nan).unwrap().len(), 3000);
    assert!(vad.is_speaking());
    assert!(vad.current_speech().is_empty());
}

#[test]
fn a_short_split_is_dropped() {
    // With a limit of zero every chunk of voice is split at once.
    let mut vad: EnergyVad<u32> = EnergyVad::new(1000, level(10.0), 0);
    assert!(vad.process(&vec![50; 60], &loud).is_none());
    assert_eq!(vad.current_speech().len(), 10);
}

#[test]
fn hearing_and_splitting_step_by_step() {
    let mut vad: EnergyVad<u32> = EnergyVad::new(1000, level(10.0), 1);
    assert_eq!(vad.hear(&[1, 2, 3], false), Heard::Nothing);
    assert_eq!(vad.hear(&vec![9; 500], true), Heard::Nothing);
    assert_eq!(vad.current_speech().len(), 503);
    assert_eq!(vad.hear(&vec![9; 600], false), Heard::SplitDue);
    // 1103 samples: windows begin at 0, 25, .. below 1053.
    let levels: Vec<Level> = (0..43).map(|i| level(if i == 40 { 1.0 } else { 2.0 })).collect();
    assert_eq!(vad.force_split(&levels).unwrap().len(), 1050);
    assert_eq!(vad.current_speech().len(), 53);
    assert_eq!(vad.hear(&vec![9; 700], false), Heard::Nothing);
    assert_eq!(vad.hear(&vec![9; 100], false), Heard::Ended);
    assert!(vad.finish_utterance().is_none());
}

#[test]
fn without_room_one_sample_is_remembered() {
    let mut vad: EnergyVad<u32> = EnergyVad::new(4, level(10.0), 25);
    vad.process(&[1, 2, 3], &loud);
    assert_eq!(vad.pre_speech_len(), 1);
    vad.process(&[20], &loud);
    assert_eq!(vad.current_speech(), &[3, 20]);
}

#[test]
fn a_lower_threshold_hears_more() {
    let mut vad: EnergyVad<u32> = EnergyVad::new(1000, level(30.0), 25);
    vad.process(&[30], &loud);
    assert!(vad.is_speaking());
    vad.reset();
    vad.process(&[29], &loud);
    assert!(!vad.is_speaking());
    vad.set_threshold(level(29.0));
    vad.process(&[29], &loud);
    assert!(vad.is_speaking());
}

#[test]
fn a_threshold_that_is_not_a_number_hears_nothing() {
    let mut vad: EnergyVad<u32> = EnergyVad::new(1000, level(f32::NAN), 25);
    vad.process(&[1000], &loud);
    assert!(!vad.is_speaking());
}

#[test]
fn quietest_is_the_first_of_the_lowest() {
    let levels: Vec<Level> = [3.0, f32::NAN, 1.0, 2.0, 1.0, f32::INFINITY]
        .iter()
        .map(|x| level(*x))
        .collect();
    assert_eq!(find_quietest(&levels), Some(2));
    assert_eq!(find_quietest(&[]), None);
    assert_eq!(find_quietest(&[level(f32::MAX), level(f32::INFINITY)]), None);
}

#[test]
fn loudest_passes_over_what_is_not_a_number() {
    let levels: Vec<Level> = [0.5, f32::NAN, 0.75, 0.25].iter().map(|x| level(*x)).collect();
    assert_eq!(value(loudest(&levels)), 0.75);
    assert_eq!(loudest(&[level(-1.0)]), level(0.0));
}

#[test]
fn peak_looks_at_every_window() {
    // At 1000 Hz windows begin at 0, 25, 50, .. as long as they fit.
    let mut samples = vec![1u32; 100];
    samples[99] = 8;
    let peak = EnergyVad::<u32>::peak_rms(&samples, 1000, &loud);
    assert_eq!(value(peak), 8.0);
    samples.push(9);
    let peak = EnergyVad::<u32>::peak_rms(&samples, 1000, &loud);
    assert_eq!(value(peak), 8.0);
}

#[test]
fn a_forced_split_is_told_until_the_next_chunk() {
    let mut vad: EnergyVad<u32> = EnergyVad::new(1000, level(10.0), 3);
    assert!(!vad.was_force_split());
    assert!(vad.process(&vec![90; 2999], &loud).is_none());
    assert!(!vad.was_force_split());
    assert!(vad.process(&[90], &loud).is_some());
    assert!(vad.was_force_split());
    assert!(vad.process(&[90], &loud).is_none());
    assert!(!vad.was_force_split());
}

#[test]
fn a_split_is_forgotten_with_the_rest() {
    let mut vad: EnergyVad<u32> = EnergyVad::new(1000, level(10.0), 3);
    vad.process(&vec![90; 3000], &loud);
    assert!(vad.was_force_split());
    vad.reset();
    assert!(!vad.was_force_split());
}

#[test]
fn a_quiet_chunk_at_a_tiny_rate_is_remembered() {
    let mut vad: EnergyVad<u32> = EnergyVad::new(20, level(10.0), 0);
    assert!(vad.process(&[1, 2, 3, 4, 5], &loud).is_none());
    assert_eq!(vad.pre_speech_len(), 4);
}

#[test]
fn what_is_held_stays_below_the_limit() {
    let mut vad: EnergyVad<u32> = EnergyVad::new(1000, level(10.0), 2);
    let audio: Vec<u32> = (0..30_000u32).map(|i| 100 + (i * 31) % 97).collect();
    for chunk in audio.chunks(333) {
        vad.process(chunk, &loud);
        assert!(vad.current_speech().len() < 2000);
    }
}

#[test]
fn silence_short_of_the_end_keeps_the_utterance_open() {
    let mut vad: EnergyVad<u32> = EnergyVad::new(1000, level(10.0), 25);
    vad.process(&vec![50; 400], &loud);
    for _ in 0..5 {
        vad.process(&vec![0; 799], &loud);
        assert!(vad.is_speaking());
        vad.process(&[50], &loud);
    }
    assert!(vad.process(&vec![0; 800], &loud).is_some());
}

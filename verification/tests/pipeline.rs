use modular_agent_audio::level::Level;
use modular_agent_audio::pipeline::{
    submit_status, InferJob, Sent, SpeechPipeline, INFER_QUEUE_DEPTH, PARTIAL_WINDOW,
    WHISPER_SAMPLE_RATE,
};
use modular_agent_audio::silero_vad::{Report, Segment, SileroVad};
use modular_agent_audio::vad::EnergyVad;

fn level(x: f32) -> Level {
    Level { bits: x.to_bits() }
}

fn loud(samples: &[u32]) -> Level {
    level(samples.iter().copied().max().unwrap_or(0) as f32)
}

fn final_of(job: Option<InferJob<u32>>) -> Vec<u32> {
    match job {
        Some(InferJob::Final(samples)) => samples,
        _ => panic!("no whole utterance"),
    }
}

fn partial_of(job: Option<InferJob<u32>>) -> Vec<u32> {
    match job {
        Some(InferJob::Partial(samples)) => samples,
        _ => panic!("no partial utterance"),
    }
}

#[test]
fn the_window_of_a_partial_is_eight_seconds() {
    assert_eq!(PARTIAL_WINDOW, 8 * WHISPER_SAMPLE_RATE as usize);
    assert_eq!(INFER_QUEUE_DEPTH, 3);
}

#[test]
fn partials_come_with_the_interval() {
    let mut pipeline = SpeechPipeline::new(level(0.0), 100);
    let speech: Vec<u32> = (0..300).collect();
    assert!(pipeline.decide(None, level(0.0), true, &speech[..60], 60).is_none());
    assert!(pipeline.decide(None, level(0.0), true, &speech[..99], 39).is_none());
    let part = partial_of(pipeline.decide(None, level(0.0), true, &speech[..100], 1));
    assert_eq!(part, speech[..100].to_vec());
    assert!(pipeline.decide(None, level(0.0), true, &speech[..199], 99).is_none());
    let part = partial_of(pipeline.decide(None, level(0.0), true, &speech[..300], 101));
    assert_eq!(part, speech);
}

#[test]
fn a_partial_is_the_end_of_a_long_utterance() {
    let mut pipeline = SpeechPipeline::new(level(0.0), 1);
    let speech: Vec<u32> = (0..130_000).collect();
    let part = partial_of(pipeline.decide(None, level(0.0), true, &speech, 130_000));
    assert_eq!(part, speech[2000..].to_vec());
}

#[test]
fn silence_and_utterances_start_the_interval_anew() {
    let mut pipeline = SpeechPipeline::new(level(0.0), 100);
    assert!(pipeline.decide::<u32>(None, level(0.0), true, &[], 99).is_none());
    assert!(pipeline.decide::<u32>(None, level(0.0), false, &[], 99).is_none());
    assert!(pipeline.decide::<u32>(None, level(0.0), true, &[], 99).is_none());
    assert!(pipeline.decide(Some(vec![1u32]), level(0.0), true, &[], 99).is_some());
    assert!(pipeline.decide::<u32>(None, level(0.0), true, &[], 99).is_none());
    assert!(pipeline.decide::<u32>(None, level(0.0), true, &[], 1).is_some());
}

#[test]
fn partials_can_be_turned_off() {
    let mut pipeline = SpeechPipeline::new(level(0.0), 0);
    assert!(pipeline.decide::<u32>(None, level(0.0), true, &[1], usize::MAX).is_none());
    assert!(pipeline.decide::<u32>(None, level(0.0), true, &[1], usize::MAX).is_none());
}

#[test]
fn quiet_utterances_are_discarded() {
    let mut pipeline = SpeechPipeline::new(level(0.25), 0);
    assert!(!pipeline.passes_min_volume(level(0.2)));
    assert!(pipeline.passes_min_volume(level(0.25)));
    assert!(pipeline.passes_min_volume(level(0.3)));
    assert!(pipeline.decide(Some(vec![1u32]), level(0.2), false, &[], 1).is_none());
    let job = pipeline.decide(Some(vec![1u32, 2]), level(0.3), false, &[], 1);
    assert!(job.as_ref().unwrap().is_final());
    assert_eq!(final_of(job), vec![1, 2]);
    pipeline.set_min_volume(level(0.1));
    assert!(pipeline.passes_min_volume(level(0.2)));
}

#[test]
fn no_minimum_keeps_everything() {
    for min in [0.0, -0.0, -1.0, f32::NAN] {
        let pipeline = SpeechPipeline::new(level(min), 0);
        assert!(pipeline.passes_min_volume(level(0.0)));
        assert!(pipeline.passes_min_volume(level(f32::NAN)));
    }
}

#[test]
fn the_loudest_window_decides() {
    // One sample stands out of 1600: two windows of 50 ms.
    let mut utterance = vec![1u32; 1600];
    utterance[900] = 40;
    let mut pipeline = SpeechPipeline::new(level(30.0), 0);
    let job = pipeline.on_detected(Some(utterance.clone()), false, &[], 10, &loud);
    assert_eq!(final_of(job), utterance);
    pipeline.set_min_volume(level(50.0));
    assert!(pipeline.on_detected(Some(utterance), false, &[], 10, &loud).is_none());
}

#[test]
fn the_energy_detector_feeds_the_pipeline() {
    let mut vad: EnergyVad<u32> = EnergyVad::new(16_000, level(10.0), 25);
    let mut pipeline = SpeechPipeline::new(level(0.0), 8000);
    assert!(pipeline.feed(&mut vad, &vec![50; 7999], &loud).is_none());
    let part = partial_of(pipeline.feed(&mut vad, &[51], &loud));
    assert_eq!(part.len(), 8000);
    assert_eq!(part[7999], 51);
    let whole = final_of(pipeline.feed(&mut vad, &vec![0; 12_800], &loud));
    assert_eq!(whole.len(), 20_800);
}

#[test]
fn the_silero_detector_feeds_the_pipeline() {
    let mut vad: SileroVad<u32> = SileroVad::new(5);
    let mut pipeline = SpeechPipeline::new(level(0.0), 512);
    let chunk: Vec<u32> = (0..512).collect();
    let talking = vec![Report { detected: true, segments: Vec::new() }];
    let part = partial_of(pipeline.feed_silero(&mut vad, &chunk, &talking, &loud));
    assert_eq!(part, chunk);
    let done = vec![Report {
        detected: false,
        segments: vec![Segment { start: 2, samples: vec![9] }],
    }];
    let whole = final_of(pipeline.feed_silero(&mut vad, &chunk, &done, &loud));
    assert_eq!(whole, vec![0, 1, 9]);
}

#[test]
fn only_a_lost_utterance_is_told() {
    assert_eq!(submit_status(true, Sent::Full), Some("dropped: transcription backlog"));
    assert_eq!(submit_status(false, Sent::Full), None);
    assert_eq!(submit_status(true, Sent::Queued), None);
    assert_eq!(submit_status(true, Sent::Disconnected), None);
}

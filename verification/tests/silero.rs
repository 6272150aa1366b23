use modular_agent_audio::level::Level;
use modular_agent_audio::silero_vad::{Report, Segment, SileroVad};

fn quiet() -> Report<u32> {
    Report { detected: false, segments: Vec::new() }
}

fn talking() -> Report<u32> {
    Report { detected: true, segments: Vec::new() }
}

fn range(from: u32, to: u32) -> Vec<u32> {
    (from..to).collect()
}

fn quiet_reports(n: usize) -> Vec<Report<u32>> {
    (0..n).map(|_| quiet()).collect()
}

#[test]
fn windows_are_filled_across_chunks() {
    let mut vad: SileroVad<u32> = SileroVad::new(5);
    assert_eq!(vad.windows_due(511), 0);
    assert!(vad.due_windows(&range(0, 511)).is_empty());
    assert!(vad.process(&range(0, 511), &Vec::new()).is_none());
    assert_eq!(vad.windows_due(514), 2);
    let windows = vad.due_windows(&range(511, 1025));
    assert_eq!(windows, vec![range(0, 512), range(512, 1024)]);
    assert!(vad.process(&range(511, 1025), &quiet_reports(2)).is_none());
    assert_eq!(vad.windows_due(511), 1);
}

#[test]
fn a_segment_gets_its_pre_roll() {
    let mut vad: SileroVad<u32> = SileroVad::new(5);
    // 40 windows: 20480 samples.
    assert!(vad.process(&range(0, 19968), &quiet_reports(39)).is_none());
    let report = Report {
        detected: false,
        segments: vec![Segment { start: 15000, samples: vec![7, 8, 9] }],
    };
    let out = vad.process(&range(19968, 20480), &vec![report]).unwrap();
    let mut expected = range(15000 - 12800, 15000);
    expected.extend([7, 8, 9]);
    assert_eq!(out, expected);
}

#[test]
fn a_pre_roll_stops_where_the_stream_begins() {
    let mut vad: SileroVad<u32> = SileroVad::new(5);
    let report = |start: i64| Report {
        detected: false,
        segments: vec![Segment { start, samples: vec![5] }],
    };
    let out = vad.process(&range(0, 512), &vec![report(100)]).unwrap();
    assert_eq!(out.len(), 101);
    assert_eq!(out[..100], range(0, 100)[..]);
    let out = vad.process(&range(512, 1024), &vec![report(-4)]).unwrap();
    assert_eq!(out, vec![5]);
    // A start that lies ahead of the stream is brought back to its end.
    let out = vad.process(&range(1024, 1536), &vec![report(2000)]).unwrap();
    assert_eq!(out.len(), 1537);
}

#[test]
fn utterances_come_out_one_by_one_in_order() {
    let mut vad: SileroVad<u32> = SileroVad::new(5);
    let report = Report {
        detected: false,
        segments: vec![
            Segment { start: 0, samples: vec![1] },
            Segment { start: 0, samples: vec![2] },
        ],
    };
    assert_eq!(vad.process(&range(0, 512), &vec![report]), Some(vec![1]));
    assert_eq!(vad.process(&[], &Vec::new()), Some(vec![2]));
    assert_eq!(vad.process(&[], &Vec::new()), None);
}

#[test]
fn speech_in_progress_starts_before_its_detection() {
    let mut vad: SileroVad<u32> = SileroVad::new(5);
    assert!(vad.process(&range(0, 20480), &quiet_reports(40)).is_none());
    assert!(!vad.is_speaking());
    assert!(vad.current_speech().is_empty());
    assert!(vad.process(&range(20480, 20992), &vec![talking()]).is_none());
    assert!(vad.is_speaking());
    let begin = 20992 - (512 + 4000 + 12800);
    assert_eq!(vad.current_speech(), &range(begin, 20992)[..]);
    assert!(vad.process(&range(20992, 21504), &vec![talking()]).is_none());
    assert_eq!(vad.current_speech(), &range(begin, 21504)[..]);
    assert!(vad.process(&range(21504, 22016), &vec![quiet()]).is_none());
    assert!(vad.current_speech().is_empty());
}

#[test]
fn old_history_is_trimmed_but_covers_the_longest_utterance() {
    let mut vad: SileroVad<u32> = SileroVad::new(1);
    // 48000 samples are kept, and 64000 more before they are trimmed.
    let mut at = 0;
    while at < 300_000 {
        assert!(vad.process(&range(at, at + 512), &quiet_reports(1)).is_none());
        at += 512;
    }
    let start = at - 16000;
    let report = Report {
        detected: false,
        segments: vec![Segment { start: start as i64, samples: vec![] }],
    };
    let out = vad.process(&range(at, at + 512), &vec![report]).unwrap();
    assert_eq!(out, range(start - 12800, start));
    // A segment from long ago gets what the history still has, which is nothing.
    let report = Report {
        detected: false,
        segments: vec![Segment { start: 1000, samples: vec![3] }],
    };
    assert_eq!(vad.process(&range(at + 512, at + 1024), &vec![report]), Some(vec![3]));
}

#[test]
fn the_energy_threshold_means_nothing_to_it() {
    let mut vad: SileroVad<u32> = SileroVad::new(5);
    vad.process(&range(0, 512), &vec![talking()]);
    vad.set_energy_threshold(Level { bits: 0 });
    assert!(vad.is_speaking());
    assert_eq!(vad.current_speech(), &range(0, 512)[..]);
}

#[test]
fn a_window_can_be_fed_alone() {
    let mut vad: SileroVad<u32> = SileroVad::new(5);
    vad.feed_window(&range(0, 512), &talking());
    assert!(vad.is_speaking());
    assert_eq!(vad.current_speech().len(), 512);
}

#[test]
fn windows_are_the_same_however_audio_is_cut() {
    let audio = range(0, 5000);
    for size in [1, 100, 511, 512, 513, 2000, 5000] {
        let mut vad: SileroVad<u32> = SileroVad::new(5);
        let mut windows: Vec<Vec<u32>> = Vec::new();
        for chunk in audio.chunks(size) {
            let due = vad.due_windows(chunk);
            vad.process(chunk, &quiet_reports(due.len()));
            windows.extend(due);
        }
        let whole: Vec<Vec<u32>> = audio.chunks_exact(512).map(|w| w.to_vec()).collect();
        assert_eq!(windows, whole);
        assert_eq!(vad.windows_due(512 - 5000 % 512), 1);
        assert_eq!(vad.windows_due(511 - 5000 % 512), 0);
    }
}

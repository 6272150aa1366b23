use modular_agent_audio::level::Level;
use modular_agent_audio::playback::{Playback, PlaybackAction, PlaybackEvent};
use modular_agent_audio::player::{playback_commands, AudioCommand};

const VOLUME: Level = Level { bits: 0x3f00_0000 };

/// A thread that waits for its first command.
fn waiting() -> Playback {
    let mut playback = Playback::new(VOLUME);
    match playback.step(PlaybackEvent::Opened(true)) {
        PlaybackAction::SetVolume(v) => assert_eq!(v, VOLUME),
        _ => panic!("expected the volume to be set"),
    }
    assert!(matches!(playback.step(PlaybackEvent::Applied), PlaybackAction::Receive));
    playback
}

#[test]
fn without_an_output_nothing_is_played() {
    let mut playback = Playback::new(VOLUME);
    assert!(matches!(playback.step(PlaybackEvent::Opened(false)), PlaybackAction::Stop));
}

#[test]
fn a_clip_is_decoded_and_queued() {
    let mut playback = waiting();
    let play = PlaybackEvent::Received(Some(AudioCommand::Play(vec![1, 2])));
    match playback.step(play) {
        PlaybackAction::Decode(clip) => assert_eq!(clip, vec![1, 2]),
        _ => panic!("expected to decode"),
    }
    assert!(matches!(playback.step(PlaybackEvent::Decoded(true)), PlaybackAction::Queue));
    assert!(matches!(playback.step(PlaybackEvent::Applied), PlaybackAction::Receive));
}

#[test]
fn a_clip_that_cannot_be_decoded_is_skipped() {
    let mut playback = waiting();
    playback.step(PlaybackEvent::Received(Some(AudioCommand::Play(vec![0]))));
    assert!(matches!(playback.step(PlaybackEvent::Decoded(false)), PlaybackAction::Receive));
    assert_eq!(playback, Playback::Waiting);
}

#[test]
fn an_interrupting_clip_is_heard() {
    let mut playback = waiting();
    let mut seen = Vec::new();
    for command in playback_commands(vec![9], true) {
        let mut action = playback.step(PlaybackEvent::Received(Some(command)));
        loop {
            let (name, event) = match action {
                PlaybackAction::Clear => ("clear", PlaybackEvent::Applied),
                PlaybackAction::Resume => ("resume", PlaybackEvent::Applied),
                PlaybackAction::Decode(_) => ("decode", PlaybackEvent::Decoded(true)),
                PlaybackAction::Queue => ("queue", PlaybackEvent::Applied),
                _ => break,
            };
            seen.push(name);
            action = playback.step(event);
        }
    }
    assert_eq!(seen, ["clear", "resume", "decode", "queue"]);
}

#[test]
fn the_volume_can_be_changed() {
    let mut playback = waiting();
    let louder = Level { bits: 0x3f80_0000 };
    match playback.step(PlaybackEvent::Received(Some(AudioCommand::SetVolume(louder)))) {
        PlaybackAction::SetVolume(v) => assert_eq!(v, louder),
        _ => panic!("expected the volume to be set"),
    }
}

#[test]
fn playback_stops_when_told_or_left_alone() {
    let shutdown = PlaybackEvent::Received(Some(AudioCommand::Shutdown));
    assert!(matches!(waiting().step(shutdown), PlaybackAction::Stop));
    assert!(matches!(waiting().step(PlaybackEvent::Received(None)), PlaybackAction::Stop));
}

use base64::engine::general_purpose::STANDARD;
use base64::Engine;
use modular_agent_audio::error::AudioError;
use modular_agent_audio::player::{
    audio_input, data_uri_payload, decode_data_uri, decoded_audio, playback_commands, AudioCommand,
};

fn message(e: AudioError) -> String {
    match e {
        AudioError::InvalidValue(m) => m,
        _ => panic!("expected an invalid value"),
    }
}

#[test]
fn audio_comes_out_of_a_data_uri() {
    assert_eq!(decode_data_uri("data:audio/wav;base64,aGVsbG8=").unwrap(), b"hello".to_vec());
    assert_eq!(decode_data_uri("data:;base64,").unwrap(), Vec::<u8>::new());
    assert_eq!(decode_data_uri("data:;base64,/+8A").unwrap(), vec![255, 239, 0]);
}

#[test]
fn every_length_survives_the_trip() {
    let bytes: Vec<u8> = (0..=255).rev().collect();
    for n in 0..bytes.len() {
        let uri = format!("data:audio/mpeg;base64,{}", STANDARD.encode(&bytes[..n]));
        assert_eq!(decode_data_uri(&uri).unwrap(), bytes[..n].to_vec());
    }
}

#[test]
fn the_first_mark_ends_the_media_type() {
    assert_eq!(data_uri_payload("data:a;base64,b;base64,c"), Some("b;base64,c"));
    assert_eq!(data_uri_payload("data:audio/ogg; codecs=opus;base64,QQ=="), Some("QQ=="));
    assert_eq!(data_uri_payload("data:音;base64,QQ=="), Some("QQ=="));
}

#[test]
fn what_is_no_data_uri_is_refused() {
    for text in ["", "data", "hello", "data:audio/wav,aGk=", "DATA:;base64,aGk=", "x data:;base64,"] {
        assert_eq!(data_uri_payload(text), None);
        assert_eq!(
            message(decode_data_uri(text).unwrap_err()),
            "Expected data URI format: data:<mime>;base64,<data>"
        );
    }
}

#[test]
fn what_is_no_base64_is_refused() {
    // Foreign symbols, missing padding, padding in the middle, loose bits.
    for data in ["a b=", "aGVsbG8", "=aGk", "aGk=aGk=", "aGl=", "a", "_-8A"] {
        let uri = format!("data:audio/wav;base64,{}", data);
        let cause = STANDARD.decode(data).unwrap_err().to_string();
        assert_eq!(
            message(decode_data_uri(&uri).unwrap_err()),
            format!("Failed to decode base64 audio data: {}", cause)
        );
    }
}

#[test]
fn a_decoding_error_is_told() {
    assert_eq!(decoded_audio(Ok(vec![1, 2])).unwrap(), vec![1, 2]);
    assert_eq!(
        message(decoded_audio(Err("bad".to_string())).unwrap_err()),
        "Failed to decode base64 audio data: bad"
    );
}

#[test]
fn an_input_has_to_be_a_text() {
    assert_eq!(
        message(audio_input(None).unwrap_err()),
        "Input must be a string containing a data URI"
    );
    assert_eq!(message(audio_input(Some("")).unwrap_err()), "Input data URI is empty");
    assert_eq!(audio_input(Some("data:;base64,QQ==")).unwrap(), b"A".to_vec());
}

#[test]
fn clips_queue_unless_one_interrupts() {
    let commands = playback_commands(vec![1, 2], false);
    assert_eq!(commands.len(), 1);
    assert!(matches!(&commands[0], AudioCommand::Play(clip) if *clip == vec![1, 2]));
    let commands = playback_commands(vec![3], true);
    assert_eq!(commands.len(), 2);
    assert!(matches!(&commands[0], AudioCommand::Clear));
    assert!(matches!(&commands[1], AudioCommand::Play(clip) if *clip == vec![3]));
}

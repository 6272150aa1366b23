use modular_agent_audio::device_list::{
    device_entry, device_labels, device_list, device_not_found, device_request, display_name,
    invalid_device_id, no_default_input, no_default_output, DeviceDescription, DeviceKind,
    DeviceProbe, DeviceRequest,
};
use modular_agent_audio::error::AudioError;

fn description(name: &str, driver: Option<&str>) -> DeviceDescription {
    DeviceDescription { name: name.to_string(), driver: driver.map(|d| d.to_string()) }
}

fn probe(id: Option<&str>, name: Option<&str>) -> DeviceProbe {
    DeviceProbe { id: id.map(|i| i.to_string()), description: name.map(|n| description(n, None)) }
}

fn config_message(e: AudioError) -> String {
    match e {
        AudioError::InvalidConfig(m) => m,
        _ => panic!("expected a configuration error"),
    }
}

fn io_message(e: AudioError) -> String {
    match e {
        AudioError::IoError(m) => m,
        _ => panic!("expected an input or output error"),
    }
}

#[test]
fn names_show_the_driver() {
    let mic = description("マイク", Some("Wireless Microphone RX"));
    assert_eq!(display_name(&mic), "マイク (Wireless Microphone RX)");
    assert_eq!(display_name(&description("Mic", Some("Mic"))), "Mic");
    assert_eq!(display_name(&description("Mic", None)), "Mic");
    assert_eq!(display_name(&description("Mic", Some(""))), "Mic ()");
    assert_ne!(display_name(&description("Mic", Some("a"))), display_name(&description("Mic", Some("b"))));
}

#[test]
fn only_known_devices_are_listed() {
    let entry = device_entry(&probe(Some("id"), Some("Mic")), DeviceKind::Input).unwrap();
    assert_eq!(entry.id, "id");
    assert_eq!(entry.name, "Mic");
    assert_eq!(entry.kind.name(), "input");
    assert!(device_entry(&probe(None, Some("Mic")), DeviceKind::Input).is_none());
    assert!(device_entry(&probe(Some("id"), None), DeviceKind::Input).is_none());
}

#[test]
fn loopback_devices_follow_the_inputs() {
    let inputs = vec![probe(Some("1"), Some("a")), probe(None, None), probe(Some("2"), Some("b"))];
    let outputs = vec![probe(Some("3"), Some("c")), probe(Some("4"), None)];
    let list = device_list(Ok(inputs), Some(Ok(outputs))).unwrap();
    let shown: Vec<(&str, &str, &str)> =
        list.iter().map(|e| (e.id.as_str(), e.name.as_str(), e.kind.name())).collect();
    assert_eq!(shown, vec![("1", "a", "input"), ("2", "b", "input"), ("3", "c", "loopback")]);
    let list = device_list(Ok(vec![probe(Some("1"), Some("a"))]), None).unwrap();
    assert_eq!(list.len(), 1);
}

#[test]
fn failed_enumerations_are_told() {
    let e = device_list(Err("no host".to_string()), None).err().unwrap();
    assert_eq!(io_message(e), "Failed to enumerate input devices: no host");
    let e = device_list(Ok(Vec::new()), Some(Err("busy".to_string()))).err().unwrap();
    assert_eq!(io_message(e), "Failed to enumerate output devices: busy");
}

#[test]
fn a_device_is_meant_by_its_name() {
    assert!(matches!(device_request("", false), Ok(DeviceRequest::DefaultInput)));
    assert!(matches!(device_request("loopback", true), Ok(DeviceRequest::DefaultOutput)));
    match device_request("Loopback", true) {
        Ok(DeviceRequest::ById(id)) => assert_eq!(id, "Loopback"),
        _ => panic!("expected an identifier"),
    }
    assert_eq!(
        config_message(device_request("loopback", false).err().unwrap()),
        "Loopback capture is only supported on Windows (WASAPI)"
    );
}

#[test]
fn missing_devices_are_told() {
    assert_eq!(io_message(no_default_input()), "No default audio input device available");
    assert_eq!(io_message(no_default_output()), "No default audio output device available");
    assert_eq!(
        config_message(invalid_device_id("x", "no colon")),
        "Invalid device ID 'x': no colon"
    );
}

#[test]
fn an_unknown_device_lists_the_known_ones() {
    let inputs = vec![probe(Some("a:1"), Some("Mic \"1\"")), probe(None, Some("b")), probe(Some("c"), None)];
    assert_eq!(device_labels(&inputs), vec!["a:1 (Mic \"1\")", "c ()"]);
    assert_eq!(
        config_message(device_not_found("x", Some(inputs))),
        "Device with ID 'x' not found. Available: [\"a:1 (Mic \\\"1\\\")\", \"c ()\"]"
    );
    assert_eq!(
        config_message(device_not_found("x", None)),
        "Device with ID 'x' not found. Available: []"
    );
}

use volume_control_rs::naming::{
    application_session_name_of, default_alias_of, default_device_session_name_of,
    default_fallback_of, description_or_fallback, device_session_name_of, is_device_name_of,
    is_input_device_name_of, is_monitor_source_of, is_output_device_name_of, listed_fallback_of,
    needs_process_lookup, parse_process_id,
};

#[test]
fn device_session_names() {
    assert_eq!(device_session_name_of(true, "HDMI"), "output: HDMI");
    assert_eq!(device_session_name_of(false, "USB Mic"), "input: USB Mic");
    assert_eq!(
        default_device_session_name_of(true, "Speakers"),
        "output: Speakers (default_output)"
    );
    assert_eq!(
        default_device_session_name_of(false, "Headset"),
        "input: Headset (default_input)"
    );
    assert_eq!(default_alias_of(true), "master");
    assert_eq!(default_alias_of(false), "mic");
}

#[test]
fn fallbacks() {
    assert_eq!(default_fallback_of(true), "Default Output");
    assert_eq!(default_fallback_of(false), "Default Input");
    assert_eq!(listed_fallback_of(true), "Unknown Output");
    assert_eq!(listed_fallback_of(false), "Unknown Input");
    assert_eq!(description_or_fallback(&None, "Unknown Output"), "Unknown Output");
    assert_eq!(description_or_fallback(&Some("Card".to_string()), "Unknown Output"), "Card");
    // An empty description is kept as it is.
    assert_eq!(description_or_fallback(&Some(String::new()), "Unknown Output"), "");
}

#[test]
fn name_classes() {
    assert!(is_device_name_of("output: x"));
    assert!(is_device_name_of("input: x"));
    assert!(!is_device_name_of("master"));
    assert!(!is_device_name_of("Output: x"));
    assert!(is_output_device_name_of("output: "));
    assert!(!is_output_device_name_of("input: x"));
    assert!(is_input_device_name_of("input: x"));
    assert!(!is_input_device_name_of("mic"));
}

#[test]
fn monitor_sources() {
    assert!(is_monitor_source_of(&Some("alsa_output.pci.analog-stereo.monitor".to_string())));
    assert!(!is_monitor_source_of(&Some("alsa_input.usb".to_string())));
    assert!(!is_monitor_source_of(&None));
}

#[test]
fn application_names() {
    let firefox = Some("Firefox".to_string());
    let comm = Some("  spotify\n".to_string());
    assert!(!needs_process_lookup(&firefox));
    assert!(needs_process_lookup(&Some(String::new())));
    assert!(needs_process_lookup(&None));
    assert_eq!(application_session_name_of(&firefox, &comm), "Firefox");
    assert_eq!(application_session_name_of(&Some(String::new()), &comm), "spotify");
    assert_eq!(application_session_name_of(&None, &comm), "spotify");
    assert_eq!(application_session_name_of(&None, &None), "Unknown");
    assert_eq!(application_session_name_of(&Some(String::new()), &None), "Unknown");
}

#[test]
fn process_ids() {
    assert_eq!(parse_process_id("1234"), Some(1234));
    assert_eq!(parse_process_id(" 1234\n"), Some(1234));
    assert_eq!(parse_process_id("+7"), Some(7));
    assert_eq!(parse_process_id("abc"), None);
    assert_eq!(parse_process_id(""), None);
    assert_eq!(parse_process_id("-1"), None);
}

#[test]
fn decimal_process_ids_read_back() {
    for n in [0u32, 1, 9, 10, 4242, 65535, u32::MAX] {
        assert_eq!(parse_process_id(&n.to_string()), Some(n));
    }
}

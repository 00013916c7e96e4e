use volume_control_rs::controller::{AudioController, DeviceReport, StreamReport};
use volume_control_rs::session::{
    LinuxApplicationSession, LinuxDeviceSession, LinuxSession, SessionTarget,
};
use volume_control_rs::CoinitMode;

fn device(index: u32, name: Option<&str>, description: Option<&str>, channels: u8) -> DeviceReport {
    DeviceReport {
        index,
        name: name.map(|s| s.to_string()),
        description: description.map(|s| s.to_string()),
        channels,
        volume_bits: 0.5f32.to_bits(),
        muted: false,
    }
}

fn stream(index: u32, has_client: bool, app: Option<&str>, process: Option<&str>) -> StreamReport {
    StreamReport {
        index,
        has_client,
        application_name: app.map(|s| s.to_string()),
        process_name: process.map(|s| s.to_string()),
        channels: 2,
        volume_bits: 1.0f32.to_bits(),
        muted: true,
    }
}

fn populated() -> AudioController {
    let mut c = AudioController::init(Some(CoinitMode::MultiThreaded));
    c.get_sessions();
    c.get_default_audio_endpoint_volume_control(
        Some(device(1, Some("alsa_output.analog"), Some("Speakers"), 2)),
        Some(device(5, Some("alsa_input.analog"), None, 1)),
    );
    c.get_all_process_sessions(vec![
        stream(10, true, Some("Firefox"), None),
        stream(11, false, Some("loopback"), None),
        stream(12, true, Some(""), Some("spotify\n")),
        stream(13, true, None, None),
    ]);
    c.get_all_audio_devices(
        vec![
            device(1, Some("alsa_output.analog"), Some("Speakers"), 2),
            device(2, Some("hdmi"), Some("HDMI"), 8),
            device(3, None, None, 0),
        ],
        vec![
            device(4, Some("alsa_output.analog.monitor"), Some("Monitor of Speakers"), 2),
            device(5, Some("alsa_input.analog"), Some("Built-in Mic"), 1),
            device(6, Some("usb_mic"), Some("USB Mic"), 1),
            device(7, None, None, 1),
        ],
    );
    c
}

#[test]
fn init_is_empty() {
    let c = AudioController::init(None);
    assert_eq!(c.session_count(), 0);
    assert!(c.get_all_session_names().is_empty());
    assert!(c.get_session_by_name("master".to_string()).is_none());
}

#[test]
fn get_sessions_changes_nothing() {
    let mut c = populated();
    let before = c.get_all_session_names();
    c.get_sessions();
    assert_eq!(c.get_all_session_names(), before);
}

#[test]
fn sessions_in_order() {
    let c = populated();
    assert_eq!(
        c.get_all_session_names(),
        vec![
            "output: Speakers (default_output)",
            "master",
            "input: Default Input (default_input)",
            "mic",
            "Firefox",
            "spotify",
            "Unknown",
            "output: HDMI",
            "output: Unknown Output",
            "input: USB Mic",
            "input: Unknown Input",
        ]
    );
}

#[test]
fn device_name_lists() {
    let c = populated();
    assert_eq!(
        c.get_all_device_names(),
        vec![
            "output: Speakers (default_output)",
            "input: Default Input (default_input)",
            "output: HDMI",
            "output: Unknown Output",
            "input: USB Mic",
            "input: Unknown Input",
        ]
    );
    assert_eq!(
        c.get_output_device_names(),
        vec!["output: Speakers (default_output)", "output: HDMI", "output: Unknown Output"]
    );
    assert_eq!(
        c.get_input_device_names(),
        vec!["input: Default Input (default_input)", "input: USB Mic", "input: Unknown Input"]
    );
}

#[test]
fn device_names_split_into_outputs_and_inputs() {
    let c = populated();
    assert_eq!(
        c.get_all_device_names().len(),
        c.get_output_device_names().len() + c.get_input_device_names().len()
    );
}

#[test]
fn default_device_and_alias_share_target() {
    let c = populated();
    let master = c.get_session_by_name("master".to_string()).unwrap();
    let named = c.get_session_by_name("output: Speakers (default_output)".to_string()).unwrap();
    assert_eq!(master.target(), SessionTarget::Sink(1));
    assert_eq!(named.target(), master.target());
    let mic = c.get_session_by_name("mic".to_string()).unwrap();
    assert_eq!(mic.target(), SessionTarget::Source(5));
    assert_eq!(mic.volume_channels(), 1);
}

#[test]
fn listed_devices_skip_default_and_monitors() {
    let c = populated();
    let names = c.get_all_session_names();
    assert!(!names.iter().any(|n| n == "output: Speakers"));
    assert!(!names.iter().any(|n| n.contains("Monitor")));
    assert!(!names.iter().any(|n| n == "input: Built-in Mic"));
}

#[test]
fn without_defaults_nothing_is_skipped() {
    let mut c = AudioController::init(None);
    c.get_default_audio_endpoint_volume_control(None, None);
    assert_eq!(c.session_count(), 0);
    c.get_all_audio_devices(
        vec![device(1, None, Some("Speakers"), 2)],
        vec![device(5, Some("mic"), Some("Mic"), 1)],
    );
    assert_eq!(c.get_all_session_names(), vec!["output: Speakers", "input: Mic"]);
}

#[test]
fn application_streams() {
    let c = populated();
    let ff = c.get_session_by_name("Firefox".to_string()).unwrap();
    assert_eq!(ff.target(), SessionTarget::SinkInput(10));
    assert!(ff.get_mute());
    assert_eq!(f32::from_bits(ff.get_volume_bits()), 1.0);
    assert!(c.get_session_by_name("loopback".to_string()).is_none());
}

#[test]
fn lookups_by_name_agree() {
    let mut c = AudioController::init(None);
    c.get_default_audio_endpoint_volume_control(Some(device(1, None, Some("A"), 2)), None);
    c.get_default_audio_endpoint_volume_control(Some(device(2, None, Some("B"), 2)), None);
    let all = c.get_sessions_by_name("master".to_string());
    assert_eq!(all.len(), 2);
    assert_eq!(all[0].target(), SessionTarget::Sink(1));
    assert_eq!(all[1].target(), SessionTarget::Sink(2));
    let first = c.get_session_by_name("master".to_string()).unwrap();
    assert_eq!(first.target(), all[0].target());
    assert_eq!(c.session_positions("master"), vec![1, 3]);
    assert_eq!(c.position_of_session("master"), Some(1));
    assert_eq!(c.position_of_session("nothing"), None);
    assert!(c.get_sessions_by_name("nothing".to_string()).is_empty());
}

#[test]
fn mute_and_volume_read_back() {
    let mut c = populated();
    let pos = c.position_of_session("output: HDMI").unwrap();
    assert!(!c.session_at(pos).get_mute());
    c.set_session_mute(pos, true);
    assert!(c.session_at(pos).get_mute());
    c.set_session_volume_bits(pos, 0.25f32.to_bits());
    assert_eq!(f32::from_bits(c.session_at(pos).get_volume_bits()), 0.25);
    assert_eq!(c.session_at(pos).volume_channels(), 8);
    // Other sessions are untouched.
    let master = c.get_session_by_name("master".to_string()).unwrap();
    assert!(!master.get_mute());
    assert_eq!(f32::from_bits(master.get_volume_bits()), 0.5);
}

#[test]
fn zero_channels_request_one() {
    let c = populated();
    let s = c.get_session_by_name("output: Unknown Output".to_string()).unwrap();
    assert_eq!(s.volume_channels(), 1);
    assert_eq!(s.target(), SessionTarget::Sink(3));
}

#[test]
fn session_structs() {
    let mut a = LinuxApplicationSession::new(3, "vlc".to_string(), 2, 0.75f32.to_bits(), false);
    assert_eq!(a.get_name(), "vlc");
    assert_eq!(a.target(), SessionTarget::SinkInput(3));
    a.set_mute(true);
    assert!(a.get_mute());
    let mut d = LinuxDeviceSession::new(4, false, "input: x".to_string(), 0, 0, true);
    assert_eq!(d.target(), SessionTarget::Source(4));
    assert_eq!(d.volume_channels(), 1);
    d.set_volume_bits(7);
    assert_eq!(d.get_volume_bits(), 7);
    let s = LinuxSession::Device(d);
    assert_eq!(s.name(), "input: x");
}

#[test]
fn one_session_per_device_after_listing() {
    let mut c = AudioController::init(None);
    c.get_default_audio_endpoint_volume_control(
        Some(device(1, Some("alsa_output.analog"), Some("Speakers"), 2)),
        Some(device(5, Some("alsa_input.analog"), Some("Mic"), 1)),
    );
    c.get_all_audio_devices(
        vec![
            device(1, Some("alsa_output.analog"), Some("Speakers"), 2),
            device(2, Some("hdmi"), Some("HDMI"), 8),
        ],
        vec![
            device(4, Some("alsa_output.analog.monitor"), Some("Monitor"), 2),
            device(5, Some("alsa_input.analog"), Some("Mic"), 1),
            device(6, Some("usb"), Some("USB"), 1),
        ],
    );
    let count = |prefix: &str, target: SessionTarget| {
        (0..c.session_count())
            .filter(|&p| {
                let s = c.session_at(p);
                s.name().starts_with(prefix) && s.target() == target
            })
            .count()
    };
    assert_eq!(count("output: ", SessionTarget::Sink(1)), 1);
    assert_eq!(count("output: ", SessionTarget::Sink(2)), 1);
    assert_eq!(count("input: ", SessionTarget::Source(4)), 0);
    assert_eq!(count("input: ", SessionTarget::Source(5)), 1);
    assert_eq!(count("input: ", SessionTarget::Source(6)), 1);
    let default_out = c.get_sessions_by_name("output: Speakers (default_output)".to_string());
    assert_eq!(default_out.len(), 1);
    assert!(c.get_session_by_name("output: Speakers".to_string()).is_none());
    assert!(c.get_session_by_name("input: Mic".to_string()).is_none());
}

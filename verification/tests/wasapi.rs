use volume_control_rs::wasapi::{
    default_endpoint_sessions, default_input_considered, endpoint_sessions_wanted,
    friendly_name_or_fallback, is_default_device, is_spdif_form_factor, is_system_process,
    listed_endpoint_fallback_of, listed_endpoint_sessions, listed_process_sessions,
    parse_form_factor, ApplicationSession, AudioSessionReport, DefaultEndpointReport,
    EndPointSession, EndpointReport, EndpointSessionsReport, FORM_FACTOR_SPDIF,
};
use volume_control_rs::{effective_coinit_mode, CoinitMode};

#[test]
fn endpoint_session_hands_out_its_interface() {
    let s = EndPointSession::new(vec![1u8, 2, 3], "master".to_string(), 99);
    assert_eq!(s.get_audio_endpoint_volume(), Some(vec![1u8, 2, 3]));
    assert_eq!(s.get_name(), "master");
    assert_eq!(s.event_context(), 99);
}

#[test]
fn application_session_accessors() {
    let s = ApplicationSession::new(7u64, "chrome.exe".to_string(), 5);
    assert_eq!(*s.simple_audio_volume(), 7);
    assert_eq!(s.get_name(), "chrome.exe");
    assert_eq!(s.event_context(), 5);
}

#[test]
fn friendly_names() {
    assert_eq!(friendly_name_or_fallback(&Some("Speakers".to_string()), "Default Output"), "Speakers");
    assert_eq!(friendly_name_or_fallback(&Some(String::new()), "Default Output"), "Default Output");
    assert_eq!(friendly_name_or_fallback(&None, "Default Input"), "Default Input");
    assert_eq!(listed_endpoint_fallback_of(true), "Unknown Output Device");
    assert_eq!(listed_endpoint_fallback_of(false), "Unknown Input Device");
}

#[test]
fn form_factors() {
    assert_eq!(FORM_FACTOR_SPDIF, 8);
    assert_eq!(parse_form_factor(&Some("8".to_string())), Some(8));
    assert_eq!(parse_form_factor(&Some("x".to_string())), None);
    assert_eq!(parse_form_factor(&None), None);
    assert!(is_spdif_form_factor(Some(8)));
    assert!(!is_spdif_form_factor(Some(1)));
    assert!(!is_spdif_form_factor(None));
}

#[test]
fn default_device_ids() {
    let a = Some("{0.0.0.00000000}.{abc}".to_string());
    assert!(is_default_device(&a, &a.clone()));
    assert!(!is_default_device(&a, &Some("other".to_string())));
    assert!(!is_default_device(&None, &a));
    assert!(!is_default_device(&a, &None));
    assert!(!is_default_device(&None, &None));
}

#[test]
fn system_process() {
    assert!(is_system_process(0));
    assert!(!is_system_process(4));
}

#[test]
fn coinit_modes() {
    assert_eq!(effective_coinit_mode(None), CoinitMode::MultiThreaded);
    assert_eq!(
        effective_coinit_mode(Some(CoinitMode::ApartmentThreaded)),
        CoinitMode::ApartmentThreaded
    );
}

fn endpoint(id: Option<&str>, name: Option<&str>, activated: bool) -> EndpointReport {
    EndpointReport {
        id: id.map(|s| s.to_string()),
        friendly_name: name.map(|s| s.to_string()),
        activated,
    }
}

#[test]
fn listed_endpoints_skip_default_and_inactive() {
    let reports = vec![
        endpoint(Some("{a}"), Some("Speakers"), true),
        endpoint(Some("{b}"), Some("Headphones"), true),
        endpoint(Some("{c}"), None, true),
        endpoint(Some("{d}"), Some("Broken"), false),
        endpoint(None, Some(""), true),
    ];
    let r = listed_endpoint_sessions(&reports, &Some("{a}".to_string()), true);
    assert_eq!(
        r,
        vec![
            (1, "output: Headphones".to_string()),
            (2, "output: Unknown Output Device".to_string()),
            (4, "output: Unknown Output Device".to_string()),
        ]
    );
    let r = listed_endpoint_sessions(&reports, &None, false);
    assert_eq!(r.len(), 4);
    assert_eq!(r[0], (0, "input: Speakers".to_string()));
    assert_eq!(r[2], (2, "input: Unknown Input Device".to_string()));
    assert!(listed_endpoint_sessions(&Vec::new(), &None, true).is_empty());
}

fn default_endpoint(name: Option<&str>, activated: bool, alias: bool) -> Option<DefaultEndpointReport> {
    Some(DefaultEndpointReport {
        friendly_name: name.map(|s| s.to_string()),
        activated,
        alias_activated: alias,
    })
}

fn entries(v: Vec<volume_control_rs::wasapi::EndpointEntry>) -> Vec<(bool, bool, String)> {
    v.into_iter().map(|e| (e.is_output, e.is_alias, e.name)).collect()
}

#[test]
fn default_endpoints_and_aliases() {
    let r = default_endpoint_sessions(
        &default_endpoint(Some("Speakers"), true, true),
        &default_endpoint(None, true, false),
    );
    assert_eq!(
        entries(r),
        vec![
            (true, false, "output: Speakers (default_output)".to_string()),
            (true, true, "master".to_string()),
            (false, false, "input: Default Input (default_input)".to_string()),
        ]
    );
    let r = default_endpoint_sessions(&None, &default_endpoint(Some("Mic"), true, true));
    assert_eq!(
        entries(r),
        vec![
            (false, false, "input: Mic (default_input)".to_string()),
            (false, true, "mic".to_string()),
        ]
    );
}

#[test]
fn failed_default_output_stops_the_input() {
    let output = default_endpoint(Some("Speakers"), false, false);
    assert!(!default_input_considered(&output));
    assert!(default_input_considered(&None));
    let r = default_endpoint_sessions(&output, &default_endpoint(Some("Mic"), true, true));
    assert!(r.is_empty());
    let r = default_endpoint_sessions(&None, &default_endpoint(Some("Mic"), false, true));
    assert!(r.is_empty());
}

fn audio_session(pid: Option<u32>, name: Option<&str>, has_volume: bool) -> AudioSessionReport {
    AudioSessionReport { process_id: pid, process_name: name.map(|s| s.to_string()), has_volume }
}

#[test]
fn process_sessions_skip_idle_unnamed_and_spdif() {
    let devices = vec![
        EndpointSessionsReport {
            form_factor: Some("1".to_string()),
            sessions: Some(vec![
                audio_session(Some(0), Some("Idle"), true),
                audio_session(Some(1200), Some("chrome.exe"), true),
                audio_session(Some(1300), None, true),
                audio_session(None, None, false),
                audio_session(Some(1400), Some("vlc.exe"), false),
                audio_session(Some(1500), Some("spotify.exe"), true),
            ]),
        },
        EndpointSessionsReport {
            form_factor: Some("8".to_string()),
            sessions: Some(vec![audio_session(Some(1600), Some("game.exe"), true)]),
        },
        EndpointSessionsReport { form_factor: None, sessions: None },
        EndpointSessionsReport {
            form_factor: None,
            sessions: Some(vec![audio_session(Some(1700), Some("discord.exe"), true)]),
        },
    ];
    assert_eq!(
        listed_process_sessions(&devices),
        vec![
            (0, 1, "chrome.exe".to_string()),
            (0, 5, "spotify.exe".to_string()),
            (3, 0, "discord.exe".to_string()),
        ]
    );
    assert!(listed_process_sessions(&Vec::new()).is_empty());
}

#[test]
fn sessions_wanted_unless_spdif() {
    assert!(endpoint_sessions_wanted(&None));
    assert!(endpoint_sessions_wanted(&Some("1".to_string())));
    assert!(endpoint_sessions_wanted(&Some("junk".to_string())));
    assert!(!endpoint_sessions_wanted(&Some("8".to_string())));
}

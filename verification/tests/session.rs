use idkspot::capability::CompatibilityResult;
use idkspot::interface::{Detection, WirelessInterface};
use idkspot::session::{
    can_start, start_hotspot, stop_hotspot, stop_message, HotspotConfig, HotspotSession, Launch,
    SessionState, StartError,
};

fn session() -> HotspotSession {
    HotspotSession::new(WirelessInterface::new("wlan0", 2437))
}

fn texts(items: &[&str]) -> Vec<String> {
    items.iter().map(|item| item.to_string()).collect()
}

#[test]
fn an_empty_network_name_is_rejected() {
    assert_eq!(start_hotspot("wlan0", 6, "", "anything12"), Err(StartError::EmptySsid));
    let mut session = session();
    assert_eq!(session.start("", "anything12"), Err(StartError::EmptySsid));
    assert_eq!(session.current_state(), SessionState::Idle);
}

#[test]
fn a_short_password_is_rejected() {
    assert_eq!(start_hotspot("wlan0", 6, "net", "short"), Err(StartError::ShortPassword));
    assert_eq!(start_hotspot("wlan0", 6, "net", "1234567"), Err(StartError::ShortPassword));
    assert_eq!(start_hotspot("wlan0", 6, "net", ""), Err(StartError::ShortPassword));
    let mut session = session();
    assert_eq!(session.start("net", "1234567"), Err(StartError::ShortPassword));
    assert_eq!(session.current_state(), SessionState::Idle);
}

#[test]
fn an_empty_network_name_comes_before_a_short_password() {
    assert_eq!(start_hotspot("wlan0", 6, "", "short"), Err(StartError::EmptySsid));
}

#[test]
fn a_password_of_eight_characters_is_accepted() {
    let expected = Launch {
        command: texts(&["create_ap", "-c", "6", "wlan0", "wlan0", "net", "12345678"]),
        message: "Hotspot 'net' starting...".to_string(),
    };
    assert_eq!(start_hotspot("wlan0", 6, "net", "12345678"), Ok(expected.clone()));
    let mut session = session();
    assert_eq!(session.start("net", "12345678"), Ok(expected));
    assert_eq!(session.current_state(), SessionState::Starting);
}

#[test]
fn the_password_is_counted_in_characters() {
    assert_eq!(
        start_hotspot("wlan0", 6, "net", "\u{e4}\u{e4}\u{e4}\u{e4}"),
        Err(StartError::ShortPassword)
    );
    assert!(start_hotspot("wlan0", 6, "net", "\u{e4}\u{e4}\u{e4}\u{e4}\u{e4}\u{e4}\u{e4}\u{e4}").is_ok());
}

#[test]
fn the_launch_names_channel_interface_and_input() {
    let launch = start_hotspot("wlp3s0", 149, "my net", "pass word 1").unwrap();
    assert_eq!(
        launch.command,
        texts(&["create_ap", "-c", "149", "wlp3s0", "wlp3s0", "my net", "pass word 1"])
    );
    assert_eq!(launch.message, "Hotspot 'my net' starting...");
    let launch = start_hotspot("wlan0", 0, "n", "12345678").unwrap();
    assert_eq!(launch.command[2], "0");
}

#[test]
fn validated_input_is_kept_as_given() {
    let config = HotspotConfig::new("net", "12345678").unwrap();
    assert_eq!(config.ssid(), "net");
    assert_eq!(config.password(), "12345678");
    assert_eq!(HotspotConfig::new("", "12345678"), Err(StartError::EmptySsid));
    assert_eq!(HotspotConfig::new("net", "1234"), Err(StartError::ShortPassword));
}

#[test]
fn start_errors_have_their_messages() {
    assert_eq!(StartError::EmptySsid.message(), "SSID required");
    assert_eq!(StartError::ShortPassword.message(), "Password needs 8+ chars");
}

#[test]
fn the_stop_command_names_the_interface() {
    assert_eq!(stop_hotspot("wlan0"), texts(&["create_ap", "--stop", "wlan0"]));
}

#[test]
fn the_stop_message_reports_the_interface_or_the_error() {
    assert_eq!(stop_message("wlan0", None), "Stopped on wlan0");
    assert_eq!(
        stop_message("wlan0", Some("No such file or directory (os error 2)")),
        "Error: No such file or directory (os error 2)"
    );
}

#[test]
fn a_run_passes_through_the_four_states() {
    let mut session = session();
    assert_eq!(session.current_state(), SessionState::Idle);
    assert!(session.inputs_editable());
    assert!(!session.is_running());
    assert!(session.start("net", "12345678").is_ok());
    assert_eq!(session.current_state(), SessionState::Starting);
    assert!(!session.inputs_editable());
    assert!(!session.is_running());
    session.launched();
    assert_eq!(session.current_state(), SessionState::Running);
    assert!(session.is_running());
    assert!(!session.inputs_editable());
    assert_eq!(session.stop(), texts(&["create_ap", "--stop", "wlan0"]));
    assert_eq!(session.current_state(), SessionState::Stopping);
    assert!(!session.is_running());
    assert_eq!(session.stopped(None), "Stopped on wlan0");
    assert_eq!(session.current_state(), SessionState::Idle);
    assert!(session.inputs_editable());
}

#[test]
fn a_stop_of_an_idle_session_leaves_it_idle() {
    let mut session = session();
    assert_eq!(session.stop(), texts(&["create_ap", "--stop", "wlan0"]));
    assert_eq!(session.stopped(None), "Stopped on wlan0");
    assert_eq!(session.current_state(), SessionState::Idle);
    session.stop();
    assert_eq!(session.stopped(Some("spawn failed")), "Error: spawn failed");
    assert_eq!(session.current_state(), SessionState::Idle);
}

#[test]
fn a_stop_that_could_not_be_issued_ends_in_idle_too() {
    let mut session = session();
    session.start("net", "12345678").unwrap();
    session.launched();
    session.stop();
    assert_eq!(session.stopped(Some("pkexec not found")), "Error: pkexec not found");
    assert_eq!(session.current_state(), SessionState::Idle);
}

#[test]
fn a_launch_is_recorded_only_while_starting() {
    let mut session = session();
    session.launched();
    assert_eq!(session.current_state(), SessionState::Idle);
    session.stop();
    session.launched();
    assert_eq!(session.current_state(), SessionState::Stopping);
}

#[test]
fn a_rejected_start_leaves_a_running_session_running() {
    let mut session = session();
    session.start("net", "12345678").unwrap();
    session.launched();
    assert_eq!(session.start("", "12345678"), Err(StartError::EmptySsid));
    assert_eq!(session.current_state(), SessionState::Running);
}

#[test]
fn the_start_is_offered_with_support_and_an_interface() {
    let yes = CompatibilityResult { supported: true, detail: "AP+Managed supported".to_string() };
    let no = CompatibilityResult { supported: false, detail: "AP+Managed not found".to_string() };
    let found = Detection { interface: "wlan0".to_string(), frequency_mhz: 2437, error: None };
    let missing = Detection {
        interface: "wlan0".to_string(),
        frequency_mhz: 0,
        error: Some("could not detect frequency".to_string()),
    };
    assert!(can_start(&yes, &found));
    assert!(!can_start(&no, &found));
    assert!(!can_start(&yes, &missing));
    assert!(!can_start(&no, &missing));
}

use ups_events::{parse_msg, DsmEvent, Host, NoMatch};

#[test]
fn empty_input_no_match() {
    assert_eq!(parse_msg(""), Err(NoMatch));
}

#[test]
fn test_message_remainder_empty() {
    let (remainder, result) = parse_msg("Test Message from COMPUTER1.").expect("should classify");
    assert_eq!(result, DsmEvent::Test(Host::new("COMPUTER1".to_string())));
    assert_eq!(remainder, "");
}

#[test]
fn battery_mode_remainder_is_untouched_tail() {
    let event_msg =
        "The UPS device connected to COMPUTER2 has entered battery mode. The battery level is 99%

From COMPUTER2";
    let (remainder, result) = parse_msg(event_msg).expect("should classify");
    let expected = DsmEvent::UpsBatteryMode(Host {
        name: "COMPUTER2".to_string(),
        battery_msg: Some("The battery level is 99%".to_string()),
    });
    assert_eq!(result, expected);
    assert_eq!(remainder, "\n\nFrom COMPUTER2");
}

#[test]
fn priority_battery_mode_beats_low_battery() {
    // The prefix up to the host name is the very one the low-battery
    // template starts with; the continuation turns it into a battery-mode
    // message, and battery mode must win.
    let event_msg = "The UPS device connected to SRV has entered battery mode. low battery.";
    let (remainder, result) = parse_msg(event_msg).expect("should classify");
    let expected = DsmEvent::UpsBatteryMode(Host {
        name: "SRV".to_string(),
        battery_msg: Some("low battery.".to_string()),
    });
    assert_eq!(result, expected);
    assert_eq!(remainder, "");
}

#[test]
fn ac_mode_trailing_text_is_remainder_not_battery_msg() {
    let event_msg = "The UPS device connected to SRV has returned to AC mode. extra words";
    let (remainder, result) = parse_msg(event_msg).expect("should classify");
    let expected = DsmEvent::UpsAcMode(Host::new("SRV".to_string()));
    assert_eq!(result, expected);
    assert_eq!(remainder, " extra words");
}

#[test]
fn low_battery_trailing_text_is_remainder_not_battery_msg() {
    let event_msg = "The UPS device connected to SRV has reached low battery. plug it in";
    let (remainder, result) = parse_msg(event_msg).expect("should classify");
    let expected = DsmEvent::UpsLowBattery(Host::new("SRV".to_string()));
    assert_eq!(result, expected);
    assert_eq!(remainder, " plug it in");
}

#[test]
fn connection_lost_remainder() {
    let event_msg = "NAS1 has lost the connection to the UPS. Check the settings.";
    let (remainder, result) = parse_msg(event_msg).expect("should classify");
    let expected = DsmEvent::UpsConnectionLost(Host::new("NAS1".to_string()));
    assert_eq!(result, expected);
    assert_eq!(remainder, " Check the settings.");
}

#[test]
fn connected_remainder() {
    let event_msg = "NAS1 has connected to the UPS device. All good";
    let (remainder, result) = parse_msg(event_msg).expect("should classify");
    let expected = DsmEvent::UpsConnected(Host::new("NAS1".to_string()));
    assert_eq!(result, expected);
    assert_eq!(remainder, " All good");
}

#[test]
fn test_message_name_stops_at_first_period() {
    let (remainder, result) = parse_msg("Test Message from host.domain.").expect("should classify");
    assert_eq!(result, DsmEvent::Test(Host::new("host".to_string())));
    assert_eq!(remainder, "domain.");
}

#[test]
fn battery_mode_without_battery_text_is_no_match() {
    // The battery-mode recognizer needs a non-empty battery fragment after
    // its anchor; with nothing there, every recognizer fails atomically.
    let event_msg = "The UPS device connected to SRV has entered battery mode.";
    assert_eq!(parse_msg(event_msg), Err(NoMatch));
}

#[test]
fn missing_host_name_is_no_match() {
    // Two spaces after the prefix leave an empty name span.
    let event_msg = "The UPS device connected to  has reached low battery.";
    assert_eq!(parse_msg(event_msg), Err(NoMatch));
}

#[test]
fn battery_msg_is_trimmed() {
    let event_msg = "The UPS device connected to SRV has entered battery mode. \t 42% left \t \nrest";
    let (remainder, result) = parse_msg(event_msg).expect("should classify");
    let expected = DsmEvent::UpsBatteryMode(Host {
        name: "SRV".to_string(),
        battery_msg: Some("42% left".to_string()),
    });
    assert_eq!(result, expected);
    assert_eq!(remainder, "\nrest");
}

#[test]
fn host_new_has_no_battery_msg() {
    let host = Host::new("SRV".to_string());
    assert_eq!(host.name, "SRV");
    assert_eq!(host.battery_msg, None);
}

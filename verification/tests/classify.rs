use ups_events::{parse_msg, DsmEvent, Host};

#[test]
fn case_test() {
    let event_msg = "Test Message from COMPUTER1.";

    let (_remainder_of_msg, result) = parse_msg(event_msg).expect("This one should pass");
    let expected = DsmEvent::Test(Host::new("COMPUTER1".to_string()));
    assert_eq!(result, expected);
}

#[test]
fn case_bat_mode() {
    let event_msg =
        "The UPS device connected to COMPUTER2 has entered battery mode. The battery level is 99%

From COMPUTER2";

    let (_remainder_of_msg, result) = parse_msg(event_msg).expect("This one should pass");
    let expected = DsmEvent::UpsBatteryMode(Host {
        name: "COMPUTER2".to_string(),
        battery_msg: Some("The battery level is 99%".to_string()),
    });
    assert_eq!(result, expected);
}

#[test]
fn case_low_bat() {
    let event_msg = "The UPS device connected to COMPUTER3 has reached low battery.";

    let (_remainder_of_msg, result) = parse_msg(event_msg).expect("This one should pass");
    let expected = DsmEvent::UpsLowBattery(Host::new("COMPUTER3".to_string()));
    assert_eq!(result, expected);
}

#[test]
fn case_generic_low_bat() {
    let event_msg =
        "The UPS device connected to %HOSTNAME% has reached low battery. Charge your UPS or connect it to a power outlet.

All services are shutting down in the meantime and will be restarted once the UPS is recovered.

From %HOSTNAME%";

    let (_remainder_of_msg, result) = parse_msg(event_msg).expect("This one should pass");
    let expected = DsmEvent::UpsLowBattery(Host::new("%HOSTNAME%".to_string()));
    assert_eq!(result, expected);
}

#[test]
fn case_is_err() {
    let event_msg = "Some random message about something else";

    let result: Result<_, _> = parse_msg(event_msg);
    assert!(result.is_err());
}

#[test]
fn case_generic_bat_mode() {
    let event_msg = "The UPS device connected to %HOSTNAME% has entered battery mode. %BATTERY_STRING%

From %HOSTNAME%";

    let (_remainder_of_msg, result) = parse_msg(event_msg).expect("This one should pass");
    let expected = DsmEvent::UpsBatteryMode(Host {
        name: "%HOSTNAME%".to_string(),
        battery_msg: Some("%BATTERY_STRING%".to_string()),
    });
    assert_eq!(result, expected);
}

#[test]
fn case_generic_ac_mode() {
    let event_msg = "The UPS device connected to %HOSTNAME% has returned to AC mode.

From %HOSTNAME%";

    let (_remainder_of_msg, result) = parse_msg(event_msg).expect("This one should pass");
    let expected = DsmEvent::UpsAcMode(Host::new("%HOSTNAME%".to_string()));
    assert_eq!(result, expected);
}

#[test]
fn case_generic_connection_lost() {
    let event_msg =
        "%HOSTNAME% has lost the connection to the UPS. Please go to DSM > Control Panel > Hardware & Power > UPS to check the server settings.

From %HOSTNAME%";

    let (_remainder_of_msg, result) = parse_msg(event_msg).expect("This one should pass");
    let expected = DsmEvent::UpsConnectionLost(Host::new("%HOSTNAME%".to_string()));
    assert_eq!(result, expected);
}

#[test]
fn case_generic_connected() {
    let event_msg = "%HOSTNAME% has connected to the UPS device.

From %HOSTNAME%";

    let (_remainder_of_msg, result) = parse_msg(event_msg).expect("This one should pass");
    let expected = DsmEvent::UpsConnected(Host::new("%HOSTNAME%".to_string()));
    assert_eq!(result, expected);
}

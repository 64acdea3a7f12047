use esp32_lcd_test::network::{
    after_connect_attempt, after_sntp_poll, wifi_credentials, AuthMethod, ConnectAction,
    SntpAction, WifiConfigError,
};

#[test]
fn ssid_is_trimmed_and_open_network_detected() {
    let c = wifi_credentials(Some("  home_2G \n"), None).unwrap();
    assert_eq!(c.ssid, "home_2G");
    assert_eq!(c.password, "");
    assert_eq!(c.auth_method, AuthMethod::Open);
}

#[test]
fn password_selects_wpa2() {
    let c = wifi_credentials(Some("home"), Some("secret pass")).unwrap();
    assert_eq!(c.ssid, "home");
    assert_eq!(c.password, "secret pass");
    assert_eq!(c.auth_method, AuthMethod::Wpa2Personal);
}

#[test]
fn missing_ssid_is_refused() {
    assert_eq!(wifi_credentials(None, Some("x")).unwrap_err(), WifiConfigError::SsidNotSet);
    assert_eq!(wifi_credentials(Some(" \t "), None).unwrap_err(), WifiConfigError::SsidNotSet);
}

#[test]
fn length_limits_are_in_bytes() {
    let ssid32 = "s".repeat(32);
    assert!(wifi_credentials(Some(&ssid32), None).is_ok());
    let ssid33 = "s".repeat(33);
    assert_eq!(wifi_credentials(Some(&ssid33), None).unwrap_err(), WifiConfigError::SsidTooLong);
    // 16 two-byte characters: 16 characters but 32 bytes, then 17 = 34 bytes
    assert!(wifi_credentials(Some(&"é".repeat(16)), None).is_ok());
    assert_eq!(
        wifi_credentials(Some(&"é".repeat(17)), None).unwrap_err(),
        WifiConfigError::SsidTooLong
    );
    let pass64 = "p".repeat(64);
    assert!(wifi_credentials(Some("net"), Some(&pass64)).is_ok());
    let pass65 = "p".repeat(65);
    assert_eq!(
        wifi_credentials(Some("net"), Some(&pass65)).unwrap_err(),
        WifiConfigError::PasswordTooLong
    );
    assert_eq!(
        wifi_credentials(Some(&ssid33), Some(&pass65)).unwrap_err(),
        WifiConfigError::SsidTooLong
    );
}

#[test]
fn connect_retries_twice_then_gives_up() {
    assert_eq!(after_connect_attempt(1, true), ConnectAction::ReportConnected);
    assert_eq!(
        after_connect_attempt(1, false),
        ConnectAction::DisconnectAndWait { delay_ms: 1500, retry: true }
    );
    assert_eq!(
        after_connect_attempt(2, false),
        ConnectAction::DisconnectAndWait { delay_ms: 1500, retry: true }
    );
    assert_eq!(
        after_connect_attempt(3, false),
        ConnectAction::DisconnectAndWait { delay_ms: 1500, retry: false }
    );
    assert_eq!(after_connect_attempt(3, true), ConnectAction::ReportConnected);
}

#[test]
fn connect_loop_makes_at_most_three_attempts() {
    let mut attempts = 0;
    let mut attempt = 1;
    loop {
        attempts += 1;
        match after_connect_attempt(attempt, false) {
            ConnectAction::ReportConnected => panic!("no attempt succeeded"),
            ConnectAction::DisconnectAndWait { retry: true, .. } => attempt += 1,
            ConnectAction::DisconnectAndWait { retry: false, .. } => break,
        }
    }
    assert_eq!(attempts, 3);
}

#[test]
fn sntp_polls_twenty_times() {
    assert_eq!(after_sntp_poll(1, true), SntpAction::Synchronized);
    assert_eq!(after_sntp_poll(1, false), SntpAction::Wait { delay_ms: 500, poll_again: true });
    assert_eq!(after_sntp_poll(19, false), SntpAction::Wait { delay_ms: 500, poll_again: true });
    assert_eq!(after_sntp_poll(20, false), SntpAction::Wait { delay_ms: 500, poll_again: false });
    let mut polls = 0;
    let mut poll = 1;
    loop {
        polls += 1;
        match after_sntp_poll(poll, false) {
            SntpAction::Synchronized => unreachable!(),
            SntpAction::Wait { poll_again: true, .. } => poll += 1,
            SntpAction::Wait { poll_again: false, .. } => break,
        }
    }
    assert_eq!(polls, 20);
}

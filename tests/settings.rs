use hue::settings::Settings;

#[test]
fn env_config() {
    let s = Settings::resolve(
        Settings::new(false, String::new(), String::new()),
        Some("10.10.10.10".to_string()),
        Some("HueGrant".to_string()),
        None,
    )
    .unwrap();
    assert_eq!(s.ip(), "10.10.10.10");
    assert_eq!(s.username(), "HueGrant");
}

#[test]
fn file_config() {
    let settings = Settings::resolve(
        Settings::new(false, "192.168.2.42".to_string(), "huehue".to_string()),
        None,
        None,
        None,
    )
    .unwrap();
    assert_eq!(settings.debug(), false);
    assert_eq!(settings.ip(), "192.168.2.42");
    assert_eq!(settings.username(), "huehue");
}

#[test]
fn file_and_env_config() {
    let settings = Settings::resolve(
        Settings::new(true, "192.168.2.42".to_string(), "huehue".to_string()),
        Some("10.10.10.10".to_string()),
        Some("HueGrant".to_string()),
        None,
    )
    .unwrap();
    assert_eq!(settings.ip(), "10.10.10.10");
    assert_eq!(settings.username(), "HueGrant");
    assert_eq!(settings.debug(), true);
}

#[test]
fn env_needs_both_values() {
    let settings = Settings::resolve(
        Settings::new(false, "192.168.2.42".to_string(), "huehue".to_string()),
        Some("10.10.10.10".to_string()),
        None,
        Some("true".to_string()),
    )
    .unwrap();
    assert_eq!(settings.ip(), "192.168.2.42");
    assert!(settings.debug());
}

#[test]
fn missing_values_are_refused() {
    assert!(Settings::resolve(Settings::new(false, String::new(), "u".to_string()), None, None, None).is_none());
    let s = Settings::resolve(
        Settings::new(true, "h".to_string(), "u".to_string()),
        None,
        None,
        Some("yes".to_string()),
    )
    .unwrap();
    assert!(!s.debug());
}

#[test]
fn call_url() {
    let s = Settings::new(false, "10.0.0.2".to_string(), "abc".to_string());
    assert_eq!(s.rest_call_url("lights/1"), "https://10.0.0.2/api/abc/lights/1");
}

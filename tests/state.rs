use hue::state::{LightState, LightStateBuilder};

#[test]
fn state_on_off() {
    let mut state = LightStateBuilder::default().on(true).build();
    assert!(state.on());
    state.set_on(false);
    assert!(!state.on());
}

#[test]
fn state_bri() {
    let mut state = LightStateBuilder::default().build();
    state.set_bri(100);
    assert_eq!(state.bri(), 100);
}

#[test]
fn state_hue() {
    let mut state = LightStateBuilder::default().build();
    assert_eq!(state.hue(), 0);
    state.set_hue(100);
    assert_eq!(state.hue(), 0);

    let mut state = LightStateBuilder::default().hue(10).build();
    state.set_hue(100);
    assert_eq!(state.hue(), 100);
}

#[test]
fn state_sat() {
    let mut state = LightStateBuilder::default().build();
    assert_eq!(state.sat(), 0);
    state.set_sat(100);
    assert_eq!(state.sat(), 0);

    let mut state = LightStateBuilder::default().sat(10).build();
    state.set_sat(100);
    assert_eq!(state.sat(), 100);
}

#[test]
fn state_ct() {
    let mut state = LightStateBuilder::default().build();
    assert_eq!(state.ct(), 0);
    state.set_ct(100);
    assert_eq!(state.ct(), 0);

    let mut state = LightStateBuilder::default().ct(10).build();
    state.set_ct(100);
    assert_eq!(state.ct(), 100);
}

// Color points are held in ten-thousandths: 10.0 is 100000.
#[test]
fn state_xy() {
    let mut state = LightStateBuilder::default().build();
    assert_eq!(state.xy(), (0, 0));
    state.set_xy((100000, 100000));
    assert_eq!(state.xy(), (0, 0));

    let mut state = LightStateBuilder::default().xy((0, 0)).build();
    state.set_xy((100000, 100000));
    assert_eq!(state.xy(), (100000, 100000));
}

#[test]
fn state_alert() {
    let mut state = LightStateBuilder::default().build();
    assert_eq!(state.alert(), "");
    state.set_alert("select");
    assert_eq!(state.alert(), "select");
    state.set_alert("something");
    assert_eq!(state.alert(), "select");
}

#[test]
fn state_effect() {
    let mut state = LightStateBuilder::default().build();
    assert_eq!(state.effect(), "");
    state.set_effect("colorloop");
    assert_eq!(state.effect(), "colorloop");
    state.set_effect("something");
    assert_eq!(state.effect(), "colorloop");
}

#[test]
fn invalid_alert_leaves_unset() {
    let mut state = LightState::new();
    state.set_alert("blink");
    assert_eq!(state.alert(), "");
    state.set_alert("lselect");
    assert_eq!(state.alert(), "lselect");
    state.set_alert("");
    assert_eq!(state.alert(), "lselect");
}

#[test]
fn invalid_effect_leaves_previous() {
    let mut state = LightState::new();
    state.set_effect("none");
    state.set_effect("rainbow");
    assert_eq!(state.effect(), "none");
}

#[test]
fn builder_rejects_invalid_alert() {
    let state = LightStateBuilder::default().alert("flash").effect("strobe").build();
    assert_eq!(state.alert(), "");
    assert_eq!(state.effect(), "");
}

#[test]
fn unset_channels_stay_unset_for_any_value() {
    let mut state = LightState::new();
    for v in [0u16, 1, 300, 65535] {
        state.set_hue(v).set_ct(v);
        state.set_sat((v % 256) as u8);
        state.set_xy((v as u32, v as u32));
    }
    assert_eq!(state.hue(), 0);
    assert_eq!(state.ct(), 0);
    assert_eq!(state.sat(), 0);
    assert_eq!(state.xy(), (0, 0));
    assert_eq!(state.to_json(), "{}");
}

#[test]
fn getters_default_when_unset() {
    let state = LightState::new();
    assert!(!state.on());
    assert_eq!(state.bri(), 0);
    assert_eq!(state.colormode(), "");
}

#[test]
fn setters_chain() {
    let mut state = LightState::new();
    state.set_on(true).set_bri(254).set_transitiontime(4);
    assert!(state.on());
    assert_eq!(state.bri(), 254);
    assert_eq!(state.to_json(), "{\"on\":true,\"bri\":254,\"transitiontime\":4}");
}

#[test]
fn state_json_text() {
    let state = LightStateBuilder::default()
        .on(false)
        .bri(1)
        .hue(65535)
        .sat(0)
        .alert("select")
        .effect("colorloop")
        .xy((3227, 100000))
        .ct(153)
        .build();
    assert_eq!(
        state.to_json(),
        "{\"on\":false,\"bri\":1,\"hue\":65535,\"sat\":0,\"alert\":\"select\",\"effect\":\"colorloop\",\"xy\":[0.3227,10.0000],\"ct\":153}"
    );
}

#[test]
fn state_round_trip_through_text() {
    let state = LightStateBuilder::default()
        .on(true)
        .bri(200)
        .hue(4000)
        .sat(17)
        .alert("lselect")
        .effect("none")
        .xy((3227, 3290))
        .ct(366)
        .transitiontime(4)
        .build();
    let text = state.to_json();
    let value: serde_json::Value = serde_json::from_str(&text).unwrap();
    let back = LightState::from_value(&value).unwrap();
    assert_eq!(back.on(), true);
    assert_eq!(back.bri(), 200);
    assert_eq!(back.hue(), 4000);
    assert_eq!(back.sat(), 17);
    assert_eq!(back.alert(), "lselect");
    assert_eq!(back.effect(), "none");
    assert_eq!(back.xy(), (3227, 3290));
    assert_eq!(back.ct(), 366);
    // The transition time is written but never read back.
    assert!(!back.to_json().contains("transitiontime"));
}

#[test]
fn state_read_only_fields_not_written() {
    let value: serde_json::Value = serde_json::from_str(
        r#"{"on":true,"colormode":"xy","mode":"homeautomation","reachable":true,"xy":[0.5,0.41]}"#,
    )
    .unwrap();
    let state = LightState::from_value(&value).unwrap();
    assert_eq!(state.colormode(), "xy");
    assert_eq!(state.xy(), (5000, 4100));
    assert_eq!(state.to_json(), "{\"on\":true,\"xy\":[0.5000,0.4100]}");
}

#[test]
fn state_rejects_out_of_range_brightness() {
    let value: serde_json::Value = serde_json::from_str(r#"{"bri":256}"#).unwrap();
    assert!(LightState::from_value(&value).is_none());
    let value: serde_json::Value = serde_json::from_str(r#"{"bri":255,"on":null}"#).unwrap();
    let state = LightState::from_value(&value).unwrap();
    assert_eq!(state.bri(), 255);
    assert!(!state.on());
    let value: serde_json::Value = serde_json::from_str(r#"{"on":1}"#).unwrap();
    assert!(LightState::from_value(&value).is_none());
    let value: serde_json::Value = serde_json::from_str(r#"[1]"#).unwrap();
    assert!(LightState::from_value(&value).is_none());
}

#[test]
fn alert_is_quoted_by_serde_json() {
    let state = LightStateBuilder::default().alert("none").build();
    assert_eq!(state.to_json(), "{\"alert\":\"none\"}");
}

#[test]
fn quoting_escapes_controls() {
    assert_eq!(hue::json::quote("a\nb\u{1}\"\\é\u{8}"), "\"a\\nb\\u0001\\\"\\\\é\\b\"");
    assert_eq!(hue::json::quote(""), "\"\"");
}

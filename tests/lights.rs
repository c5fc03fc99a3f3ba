use hue::lights::{name_body, Light};
use hue::{HTTPClientMock, HueError, Method};

const LAMP: &str = r#"
        {
            "state": {
                "on": false,
                "bri": 144,
                "alert": "none",
                "mode": "homeautomation",
                "reachable": true
            },
            "swupdate": {
                "state": "noupdates",
                "lastinstall": "2018-11-29T23:31:54"
            },
            "type": "Dimmable light",
            "name": "Hue white lamp 1",
            "modelid": "LWB010",
            "manufacturername": "Philips",
            "productname": "Hue white lamp",
            "capabilities": {
                "certified": true,
                "control": {
                    "mindimlevel": 5000,
                    "maxlumen": 806
                },
                "streaming": {
                    "renderer": false,
                    "proxy": false
                }
            },
            "config": {
                "archetype": "classicbulb",
                "function": "functional",
                "direction": "omnidirectional",
                "startup": {
                    "mode": "powerfail",
                    "configured": true
                }
            },
            "uniqueid": "00:17:88:01:02:24:3a:e8-0b",
            "swversion": "1.46.13_r26312",
            "swconfigid": "564ABA6B",
            "productid": "Philips-LWB010-1-A19DLv3"
        }"#;

fn lamp(on: bool, name: &str) -> String {
    LAMP.replace("\"on\": false", if on { "\"on\": true" } else { "\"on\": false" })
        .replace("Hue white lamp 1", name)
}

#[test]
fn get_light_ok() {
    let response = String::from(LAMP);
    let mut http_client_mock = HTTPClientMock {
        body: None,
        return_string: Some(response),
        error: None,
        replies: Vec::new(),
        requests: Vec::new(),
    };
    let light = Light::get_light(&mut http_client_mock, 1);
    assert!(light.is_ok());
}

#[test]
fn get_light_err() {
    let response = String::from("not expected response");
    let mut http_client_mock = HTTPClientMock {
        body: None,
        return_string: Some(response),
        error: None,
        replies: Vec::new(),
        requests: Vec::new(),
    };
    let light = Light::get_light(&mut http_client_mock, 1);
    assert!(light.is_err());
}

#[test]
fn get_light_fields_and_path() {
    let mut mock = HTTPClientMock::replying(LAMP.to_string());
    let mut light = Light::get_light(&mut mock, 1).unwrap();
    assert_eq!(light.id(), 1);
    assert_eq!(light.name(), "Hue white lamp 1");
    assert_eq!(light.ty(), "Dimmable light");
    assert!(!light.state().on());
    assert_eq!(light.state().bri(), 144);
    assert_eq!(light.state().alert(), "none");
    assert_eq!(mock.requests.len(), 1);
    assert_eq!(mock.requests[0].method, Method::Get);
    assert_eq!(mock.requests[0].path, "lights/1");
}

#[test]
fn scenario_push_state_reports_bridge() {
    let mut mock = HTTPClientMock::scripted(vec![Ok(lamp(false, "Lamp")), Ok(lamp(true, "Lamp"))]);
    let mut light = Light::get_light(&mut mock, 1).unwrap();
    assert!(!light.state_ref().on());
    light.state().set_on(true);
    let light = light.update_state(&mut mock).unwrap();
    assert!(light.state_ref().on());
    assert_eq!(light.id(), 1);
    assert_eq!(mock.requests.len(), 3);
    assert_eq!(mock.requests[1].method, Method::Put);
    assert_eq!(mock.requests[1].path, "lights/1/state");
    assert_eq!(mock.requests[1].body.as_deref(), Some("{\"on\":true,\"bri\":144,\"alert\":\"none\"}"));
    assert_eq!(mock.requests[2].path, "lights/1");
}

#[test]
fn push_state_trusts_bridge_over_local_copy() {
    // The bridge answers the re-read with the light still off and renamed.
    let mut mock = HTTPClientMock::scripted(vec![Ok(lamp(false, "Lamp")), Ok(lamp(false, "Renamed"))]);
    let mut light = Light::get_light(&mut mock, 7).unwrap();
    light.state().set_on(true).set_bri(10);
    let light = light.update_state(&mut mock).unwrap();
    assert!(!light.state_ref().on());
    assert_eq!(light.state_ref().bri(), 144);
    assert_eq!(light.name(), "Renamed");
    assert_eq!(light.id(), 7);
}

#[test]
fn push_state_transport_failure() {
    let mut mock = HTTPClientMock::scripted(vec![
        Ok(lamp(false, "Lamp")),
        Err(HueError::Transport("timeout".to_string())),
    ]);
    let light = Light::get_light(&mut mock, 1).unwrap();
    let r = light.update_state(&mut mock);
    assert_eq!(r.err(), Some(HueError::Transport("timeout".to_string())));
}

#[test]
fn scenario_malformed_json_is_decode_error() {
    let mut mock = HTTPClientMock::replying("{\"state\": {\"on\": tru".to_string());
    let r = Light::get_light(&mut mock, 3);
    assert_eq!(r.err(), Some(HueError::Decode));
    assert_eq!(mock.requests[0].path, "lights/3");
}

#[test]
fn missing_field_is_decode_error() {
    let r = Light::decode("{\"name\": \"x\"}", 1);
    assert_eq!(r.err(), Some(HueError::Decode));
}

#[test]
fn get_light_transport_error() {
    let mut mock = HTTPClientMock::new();
    mock.error = Some("unreachable".to_string());
    let r = Light::get_light(&mut mock, 1);
    assert_eq!(r.err(), Some(HueError::Transport("unreachable".to_string())));
}

#[test]
fn list_lights_attaches_identifiers() {
    let body = format!("{{\"3\": {}, \"12\": {}}}", lamp(true, "A"), lamp(false, "B"));
    let mut mock = HTTPClientMock::replying(body);
    let lights = Light::get_lights(&mut mock).unwrap();
    assert_eq!(lights.len(), 2);
    // Keys come in the map's order.
    assert_eq!(lights[0].id(), 12);
    assert_eq!(lights[0].name(), "B");
    assert_eq!(lights[1].id(), 3);
    assert_eq!(lights[1].name(), "A");
    assert_eq!(mock.requests[0].path, "lights");
}

#[test]
fn list_lights_bad_key_fails_whole_call() {
    let body = format!("{{\"1\": {}, \"kitchen\": {}}}", lamp(true, "A"), lamp(false, "B"));
    assert_eq!(Light::decode_all(&body).err(), Some(HueError::Decode));
    let body = format!("{{\"256\": {}}}", lamp(true, "A"));
    assert_eq!(Light::decode_all(&body).err(), Some(HueError::Decode));
    assert_eq!(Light::decode_all("[]").err(), Some(HueError::Decode));
    assert_eq!(Light::decode_all("{}").unwrap().len(), 0);
}

#[test]
fn rename_light() {
    let mut mock = HTTPClientMock::scripted(vec![Ok(lamp(false, "Lamp")), Ok(lamp(false, "Desk \\\"lamp\\\""))]);
    let light = Light::get_light(&mut mock, 2).unwrap();
    let light = light.rename(&mut mock, "Desk \"lamp\"").unwrap();
    assert_eq!(light.name(), "Desk \"lamp\"");
    assert_eq!(light.id(), 2);
    assert_eq!(mock.requests[1].method, Method::Put);
    assert_eq!(mock.requests[1].path, "lights/2");
    assert_eq!(mock.requests[1].body.as_deref(), Some("{\"name\":\"Desk \\\"lamp\\\"\"}"));
    assert_eq!(mock.requests[2].method, Method::Get);
    assert_eq!(mock.requests[2].path, "lights/2");
    assert_eq!(name_body("x"), "{\"name\":\"x\"}");
}

#[test]
fn rename_reports_bridge_name() {
    // The bridge keeps the old name; the re-read says so.
    let mut mock = HTTPClientMock::scripted(vec![Ok(lamp(false, "Lamp")), Ok(lamp(false, "Lamp"))]);
    let light = Light::get_light(&mut mock, 2).unwrap();
    let light = light.rename(&mut mock, "Other").unwrap();
    assert_eq!(light.name(), "Lamp");
}

#[test]
fn delete_light() {
    let mut mock = HTTPClientMock::replying(LAMP.to_string());
    let light = Light::get_light(&mut mock, 4).unwrap();
    light.delete(&mut mock).unwrap();
    assert_eq!(mock.requests[1].method, Method::Delete);
    assert_eq!(mock.requests[1].path, "lights/4");
    assert_eq!(mock.count(Method::Get), 1);
}

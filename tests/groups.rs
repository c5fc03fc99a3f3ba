use hue::groups::{create_body, Group};
use hue::{HTTPClientMock, HueError, Method};

const KITCHEN: &str = r#"
              {
                "name": "Kitchen",
                "lights": [
                  "1"
                ],
                "sensors": [],
                "type": "Room",
                "state": {
                  "all_on": false,
                  "any_on": false
                },
                "recycle": false,
                "class": "Kitchen",
                "action": {
                  "on": false,
                  "bri": 144,
                  "alert": "none"
                }
              } "#;

#[test]
fn get_group_ok() {
    let response = String::from(KITCHEN);
    let mut http_client_mock = HTTPClientMock {
        body: None,
        return_string: Some(response),
        error: None,
        replies: Vec::new(),
        requests: Vec::new(),
    };
    let group = Group::get_group(&mut http_client_mock, 1);
    assert!(group.is_ok());
}

#[test]
fn get_group_err() {
    let response = String::from("not expected response");
    let mut http_client_mock = HTTPClientMock {
        body: None,
        return_string: Some(response),
        error: None,
        replies: Vec::new(),
        requests: Vec::new(),
    };
    let group = Group::get_group(&mut http_client_mock, 1);
    assert!(group.is_err());
}

#[test]
fn create_group_ok() {
    assert!(true);
}

#[test]
fn create_group_err() {}

#[test]
fn scenario_list_groups_key_five() {
    let body = format!("{{\"5\": {}}}", KITCHEN);
    let mut mock = HTTPClientMock::replying(body);
    let groups = Group::get_groups(&mut mock).unwrap();
    assert_eq!(groups.len(), 1);
    assert_eq!(groups[0].id(), 5);
    assert_eq!(groups[0].name(), "Kitchen");
    assert_eq!(groups[0].ty(), "Room");
    assert_eq!(mock.requests[0].path, "groups");
}

#[test]
fn group_action_push_and_reread() {
    let on = KITCHEN.replace("\"any_on\": false", "\"any_on\": true");
    let mut mock = HTTPClientMock::scripted(vec![Ok(KITCHEN.to_string()), Ok(on)]);
    let mut group = Group::get_group(&mut mock, 2).unwrap();
    group.action().set_on(true);
    let group = group.update_state(&mut mock).unwrap();
    assert!(group.state().any_on);
    assert!(!group.state().all_on);
    assert_eq!(mock.requests[1].path, "groups/2/action");
    assert_eq!(mock.requests[1].body.as_deref(), Some("{\"on\":true,\"bri\":144,\"alert\":\"none\"}"));
    assert_eq!(mock.requests[2].path, "groups/2");
}

#[test]
fn group_full_update_body() {
    let mut mock = HTTPClientMock::replying(KITCHEN.to_string());
    let group = Group::get_group(&mut mock, 9).unwrap();
    assert_eq!(
        group.to_json(),
        "{\"name\":\"Kitchen\",\"lights\":[\"1\"],\"type\":\"Room\",\"class\":\"Kitchen\"}"
    );
    let group = group.update(&mut mock).unwrap();
    assert_eq!(group.id(), 9);
    assert_eq!(mock.requests[1].method, Method::Put);
    assert_eq!(mock.requests[1].path, "groups/9");
}

#[test]
fn group_without_class_writes_null() {
    let body = KITCHEN.replace("\"class\": \"Kitchen\",", "");
    let group = Group::decode(&body, Some(1)).unwrap();
    assert!(group.to_json().ends_with("\"class\":null}"));
}

#[test]
fn group_bad_sensor_is_decode_error() {
    let body = KITCHEN.replace("\"sensors\": []", "\"sensors\": [300]");
    assert_eq!(Group::decode(&body, Some(1)).err(), Some(HueError::Decode));
    let body = KITCHEN.replace("\"sensors\": []", "\"sensors\": [3, 7]");
    assert!(Group::decode(&body, Some(1)).is_ok());
}

#[test]
fn create_and_delete_group() {
    assert_eq!(create_body(&"Desk".to_string(), &vec![1, 12]), "{\"lights\":[1,12],\"name\":\"Desk\"}");
    let mut mock = HTTPClientMock::replying(KITCHEN.to_string());
    // The scripted transport answers a POST with an empty body, which is no group.
    let r = Group::create_group(&mut mock, "Desk".to_string(), vec![1, 12], None, None);
    assert_eq!(r.err(), Some(HueError::Decode));
    assert_eq!(mock.body.as_deref(), Some("{\"lights\":[1,12],\"name\":\"Desk\"}"));
    assert_eq!(mock.requests[0].method, Method::Post);
    assert_eq!(mock.requests[0].path, "groups");
    Group::delete_group(&mut mock, 3).unwrap();
    assert_eq!(mock.requests[1].path, "groups/3");
}

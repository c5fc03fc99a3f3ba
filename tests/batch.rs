use hue::batch::{all_lights_power, groups_power, lights_power, listed_lights_power};
use hue::{HTTPClientMock, HueError, Method};

fn lamp(on: bool) -> String {
    format!(
        r#"{{"state": {{"on": {}}}, "swupdate": {{"state": "noupdates"}}, "type": "Dimmable light",
            "name": "L", "modelid": "m", "manufacturername": "p", "productname": "q",
            "uniqueid": "u", "swversion": "s"}}"#,
        on
    )
}

#[test]
fn batch_stops_at_first_failure() {
    // The second target fails on its first call; the third and fourth are never tried.
    let mut mock = HTTPClientMock::scripted(vec![
        Ok(lamp(false)),
        Ok(lamp(true)),
        Err(HueError::Transport("down".to_string())),
        Ok(lamp(false)),
        Ok(lamp(true)),
    ]);
    let targets = vec!["1".to_string(), "2".to_string(), "3".to_string(), "4".to_string()];
    let r = lights_power(&mut mock, &targets, true);
    assert_eq!(r, Err(HueError::Transport("down".to_string())));
    assert_eq!(mock.count(Method::Get), 3);
    assert_eq!(mock.count(Method::Put), 1);
    assert_eq!(mock.requests[3].path, "lights/2");
    assert_eq!(mock.replies.len(), 2);
}

#[test]
fn batch_bad_identifier_stops() {
    let mut mock = HTTPClientMock::replying(lamp(false));
    let targets = vec!["1".to_string(), "x".to_string(), "3".to_string()];
    let r = lights_power(&mut mock, &targets, false);
    assert_eq!(r, Err(HueError::Decode));
    assert_eq!(mock.count(Method::Get), 2);
}

#[test]
fn batch_all_succeed() {
    let mut mock = HTTPClientMock::replying(lamp(true));
    let targets = vec!["1".to_string(), "2".to_string()];
    assert_eq!(lights_power(&mut mock, &targets, true), Ok(()));
    assert_eq!(mock.count(Method::Put), 2);
    assert_eq!(mock.count(Method::Get), 4);
}

#[test]
fn group_batch_empty_targets() {
    let mut mock = HTTPClientMock::new();
    assert_eq!(groups_power(&mut mock, &Vec::new(), true), Ok(()));
    assert_eq!(mock.requests.len(), 0);
}

#[test]
fn all_lights_batch() {
    let list = format!("{{\"1\": {}, \"2\": {}}}", lamp(false), lamp(false));
    let mut mock = HTTPClientMock::scripted(vec![Ok(list), Ok(lamp(true)), Ok(lamp(true))]);
    assert_eq!(all_lights_power(&mut mock, true), Ok(()));
    assert_eq!(mock.count(Method::Put), 2);
    assert_eq!(mock.requests[1].path, "lights/1/state");
    assert_eq!(mock.requests[3].path, "lights/2/state");
}

#[test]
fn empty_listing_makes_no_call() {
    let mut mock = HTTPClientMock::new();
    assert_eq!(listed_lights_power(&mut mock, Vec::new(), true), Ok(()));
    assert_eq!(mock.requests.len(), 0);
}

#[test]
fn all_lights_stops_at_failed_write() {
    let list = format!("{{\"1\": {}, \"2\": {}}}", lamp(false), lamp(false));
    let mut mock = HTTPClientMock::scripted(vec![Ok(list), Err(HueError::Transport("lost".to_string()))]);
    assert_eq!(all_lights_power(&mut mock, true), Err(HueError::Transport("lost".to_string())));
    assert_eq!(mock.count(Method::Put), 1);
    assert_eq!(mock.count(Method::Get), 2);
}

#[test]
fn batch_accepts_plus_identifier_and_records_replies() {
    let mut mock = HTTPClientMock::replying(lamp(false));
    let targets = vec!["+7".to_string()];
    assert_eq!(lights_power(&mut mock, &targets, true), Ok(()));
    assert_eq!(mock.requests.len(), 3);
    assert_eq!(mock.requests[0].path, "lights/7");
    assert_eq!(mock.requests[1].path, "lights/7/state");
    assert_eq!(mock.requests[1].body.as_deref(), Some("{\"on\":true}"));
    assert_eq!(mock.requests[1].reply, Ok(String::new()));
    assert_eq!(mock.requests[2].reply, Ok(lamp(false)));
}

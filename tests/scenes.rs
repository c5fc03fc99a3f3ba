use hue::scenes::Scene;
use hue::{HTTPClientMock, HueError};

const SCENE: &str = r#"{
    "name": "Relax",
    "type": "GroupScene",
    "group": "1",
    "lights": ["1", "2"],
    "owner": "abc",
    "recycle": false,
    "locked": false,
    "appdata": {"version": 1, "data": "x"},
    "picture": "",
    "lastupdated": "2019-01-01T00:00:00",
    "version": 2
}"#;

#[test]
fn list_scenes_uses_keys_as_identifiers() {
    let body = format!("{{\"4e1c6b20e-on-0\": {}}}", SCENE);
    let mut mock = HTTPClientMock::replying(body);
    let scenes = Scene::get_scenes(&mut mock).unwrap();
    assert_eq!(scenes.len(), 1);
    assert_eq!(scenes[0].id(), "4e1c6b20e-on-0");
    assert_eq!(scenes[0].name(), "Relax");
    assert_eq!(scenes[0].ty(), "GroupScene");
}

#[test]
fn scene_power_not_implemented() {
    let body = format!("{{\"a\": {}}}", SCENE);
    let mut mock = HTTPClientMock::replying(body);
    let scenes = Scene::get_scenes(&mut mock).unwrap();
    assert_eq!(scenes[0].set_power(&mut mock, true), Err(HueError::NotImplemented));
    assert_eq!(mock.requests.len(), 1);
}

#[test]
fn scene_bad_version_is_decode_error() {
    let body = format!("{{\"a\": {}}}", SCENE.replace("\"version\": 2", "\"version\": 2.5"));
    assert_eq!(Scene::decode_all(&body).err(), Some(HueError::Decode));
}

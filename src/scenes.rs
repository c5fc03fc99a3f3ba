//! Scenes: read from the bridge; switching one on is not implemented.
use crate::json::{
    as_bool, as_str, as_str_list, as_uint, get_keys_of, get_member_of, json_of, lookup, member,
    optional, parse_document, parsed, present_member_of, read_bool, read_opt_str, read_opt_uint,
    read_str, read_str_list, read_uint, required, Json,
};
use crate::state::narrow8;
use crate::{added, call_is, extends, lemma_one_more, HTTPClient, HueError, Method, Res};
use serde_json::Value;
use vstd::prelude::*;

verus! {

/// The mathematical value of a `Scene`.
pub struct SceneModel {
    pub id: Option<Seq<char>>,
    pub name: Seq<char>,
    pub ty: Seq<char>,
    pub group: Option<Seq<char>>,
    pub lights: Seq<Seq<char>>,
    pub owner: Seq<char>,
    pub recycle: bool,
    pub locked: bool,
    pub appdata: Option<(Option<u8>, Option<Seq<char>>)>,
    pub picture: Seq<char>,
    pub lastupdated: Seq<char>,
    pub version: u8,
}

/// Application data attached to a scene.
#[derive(Debug, Clone)]
pub struct AppData {
    version: Option<u8>,
    data: Option<String>,
}

/// A scene. Its identifier is the key under which the bridge lists it.
#[derive(Debug, Clone)]
pub struct Scene {
    id: Option<String>,
    name: String,
    ty: String,
    group: Option<String>,
    lights: Vec<String>,
    owner: String,
    recycle: bool,
    locked: bool,
    appdata: Option<AppData>,
    picture: String,
    lastupdated: String,
    version: u8,
}

pub open spec fn text_of(o: Option<String>) -> Option<Seq<char>> {
    match o {
        Some(s) => Some(s@),
        None => None,
    }
}

impl View for Scene {
    type V = SceneModel;

    closed spec fn view(&self) -> SceneModel {
        SceneModel {
            id: text_of(self.id),
            name: self.name@,
            ty: self.ty@,
            group: text_of(self.group),
            lights: self.lights@.map_values(|s: String| s@),
            owner: self.owner@,
            recycle: self.recycle,
            locked: self.locked,
            appdata: match self.appdata {
                Some(a) => Some((a.version, text_of(a.data))),
                None => None,
            },
            picture: self.picture@,
            lastupdated: self.lastupdated@,
            version: self.version,
        }
    }
}

/// Application data: an optional version and optional data.
pub open spec fn appdata_of(j: Json) -> Option<(Option<u8>, Option<Seq<char>>)> {
    let version = optional(j, "version"@, as_uint(255));
    let data = optional(j, "data"@, as_str());
    if j is Object && version is Some && data is Some {
        Some((narrow8(version->0), data->0))
    } else {
        None
    }
}

pub open spec fn as_appdata() -> spec_fn(Json) -> Option<(Option<u8>, Option<Seq<char>>)> {
    |x: Json| appdata_of(x)
}

/// The scene that a JSON object describes, with no identifier.
pub open spec fn scene_of(j: Json) -> Option<SceneModel> {
    let name = required(j, "name"@, as_str());
    let ty = required(j, "type"@, as_str());
    let group = optional(j, "group"@, as_str());
    let lights = required(j, "lights"@, as_str_list());
    let owner = required(j, "owner"@, as_str());
    let recycle = required(j, "recycle"@, as_bool());
    let locked = required(j, "locked"@, as_bool());
    let appdata = optional(j, "appdata"@, as_appdata());
    let picture = required(j, "picture"@, as_str());
    let lastupdated = required(j, "lastupdated"@, as_str());
    let version = required(j, "version"@, as_uint(255));
    if name is Some && ty is Some && group is Some && lights is Some && owner is Some
        && recycle is Some && locked is Some && appdata is Some && picture is Some
        && lastupdated is Some && version is Some {
        Some(
            SceneModel {
                id: None,
                name: name->0,
                ty: ty->0,
                group: group->0,
                lights: lights->0,
                owner: owner->0,
                recycle: recycle->0,
                locked: locked->0,
                appdata: appdata->0,
                picture: picture->0,
                lastupdated: lastupdated->0,
                version: version->0 as u8,
            },
        )
    } else {
        None
    }
}

/// The scenes that a JSON object maps identifiers to, in the object's
/// order, each with its key as identifier: every value must be a scene,
/// else there are none.
pub open spec fn scenes_of(j: Json) -> Option<Seq<SceneModel>> {
    match j {
        Json::Object(es) => if forall|i: int|
            0 <= i < es.len() ==> {
                &&& #[trigger] lookup(es, es[i].0) is Some
                &&& scene_of(lookup(es, es[i].0)->0) is Some
            } {
            Some(
                Seq::new(
                    es.len(),
                    |i: int| SceneModel { id: Some(es[i].0), ..scene_of(lookup(es, es[i].0)->0)->0 },
                ),
            )
        } else {
            None
        },
        _ => None,
    }
}

/// The scenes that a response body to a listing describes.
pub open spec fn decoded_scenes(text: Seq<char>) -> Option<Seq<SceneModel>> {
    match parsed(text) {
        Some(j) => scenes_of(j),
        None => None,
    }
}

/// What listing the scenes gives, from the transport's reply.
pub open spec fn scenes_outcome(reply: Res<String>, r: Res<Vec<Scene>>) -> bool {
    match reply {
        Err(e) => r == Err::<Vec<Scene>, HueError>(e),
        Ok(body) => match decoded_scenes(body@) {
            Some(ms) => r is Ok && r->Ok_0@.len() == ms.len() && forall|i: int|
                0 <= i < ms.len() ==> (#[trigger] r->Ok_0@[i])@ == ms[i],
            None => r == Err::<Vec<Scene>, HueError>(HueError::Decode),
        },
    }
}

impl AppData {
    fn from_value(v: &Value) -> (r: Option<AppData>)
        ensures
            match appdata_of(json_of(*v)) {
                Some(m) => r is Some && m == (r->0.version, text_of(r->0.data)),
                None => r is None,
            },
    {
        if get_keys_of(v).is_none() {
            return None;
        }
        let version = match read_opt_uint(v, "version", 255) {
            Some(Some(n)) => Some(n as u8),
            Some(None) => None,
            None => return None,
        };
        let data = match read_opt_str(v, "data") {
            Some(d) => d,
            None => return None,
        };
        Some(AppData { version, data })
    }
}

impl Scene {
    /// The scene that a JSON value describes, with no identifier.
    pub fn from_value(v: &Value) -> (r: Option<Scene>)
        ensures
            match scene_of(json_of(*v)) {
                Some(m) => r is Some && r->0@ == m,
                None => r is None,
            },
    {
        let name = match read_str(v, "name") {
            Some(s) => s,
            None => return None,
        };
        let ty = match read_str(v, "type") {
            Some(s) => s,
            None => return None,
        };
        let group = match read_opt_str(v, "group") {
            Some(s) => s,
            None => return None,
        };
        let lights = match read_str_list(v, "lights") {
            Some(s) => s,
            None => return None,
        };
        let owner = match read_str(v, "owner") {
            Some(s) => s,
            None => return None,
        };
        let recycle = match read_bool(v, "recycle") {
            Some(b) => b,
            None => return None,
        };
        let locked = match read_bool(v, "locked") {
            Some(b) => b,
            None => return None,
        };
        let appdata = match present_member_of(v, "appdata") {
            Some(m) => match AppData::from_value(m) {
                Some(a) => Some(a),
                None => return None,
            },
            None => None,
        };
        let picture = match read_str(v, "picture") {
            Some(s) => s,
            None => return None,
        };
        let lastupdated = match read_str(v, "lastupdated") {
            Some(s) => s,
            None => return None,
        };
        let version = match read_uint(v, "version", 255) {
            Some(n) => n as u8,
            None => return None,
        };
        let s = Scene {
            id: None,
            name,
            ty,
            group,
            lights,
            owner,
            recycle,
            locked,
            appdata,
            picture,
            lastupdated,
            version,
        };
        proof {
            assert(s@.lights =~= required(json_of(*v), "lights"@, as_str_list())->0);
        }
        Some(s)
    }

    /// The scenes that a response body to a listing describes, each with
    /// its key attached as identifier, in the order of the keys.
    pub fn decode_all(body: &str) -> (r: Res<Vec<Scene>>)
        ensures
            match decoded_scenes(body@) {
                Some(ms) => r is Ok && r->Ok_0@.len() == ms.len() && forall|i: int|
                    0 <= i < ms.len() ==> (#[trigger] r->Ok_0@[i])@ == ms[i],
                None => r == Err::<Vec<Scene>, HueError>(HueError::Decode),
            },
            r is Ok ==> match parsed(body@) {
                Some(Json::Object(es)) => forall|i: int|
                    0 <= i < es.len() ==> (#[trigger] r->Ok_0@[i])@.id == Some(es[i].0),
                _ => false,
            },
    {
        let v = match parse_document(body) {
            Ok(v) => v,
            Err(e) => return Err(e),
        };
        let keys = match get_keys_of(&v) {
            Some(k) => k,
            None => return Err(HueError::Decode),
        };
        let ghost es = match json_of(v) {
            Json::Object(es) => es,
            _ => Seq::empty(),
        };
        let mut out: Vec<Scene> = Vec::new();
        let mut i: usize = 0;
        while i < keys.len()
            invariant
                json_of(v) == Json::Object(es),
                parsed(body@) == Some(json_of(v)),
                keys@.len() == es.len(),
                forall|k: int| 0 <= k < es.len() ==> (#[trigger] keys@[k])@ == es[k].0,
                0 <= i <= keys@.len(),
                out@.len() == i,
                forall|k: int|
                    0 <= k < i ==> {
                        &&& #[trigger] lookup(es, es[k].0) is Some
                        &&& scene_of(lookup(es, es[k].0)->0) is Some
                    },
                forall|k: int|
                    0 <= k < i ==> (#[trigger] out@[k])@ == (SceneModel {
                        id: Some(es[k].0),
                        ..scene_of(lookup(es, es[k].0)->0)->0
                    }),
            decreases keys@.len() - i,
        {
            let key = &keys[i];
            let member = match get_member_of(&v, key.as_str()) {
                Some(m) => m,
                None => return Err(HueError::Decode),
            };
            match Scene::from_value(member) {
                Some(mut scene) => {
                    scene.id = Some(key.clone());
                    out.push(scene);
                },
                None => return Err(HueError::Decode),
            }
            i = i + 1;
        }
        Ok(out)
    }

    /// All scenes the bridge knows, each with its identifier attached: one
    /// GET of `scenes`.
    pub fn get_scenes<C: HTTPClient>(http_client: &mut C) -> (r: Res<Vec<Scene>>)
        ensures
            ({
                let xs = added(old(http_client).exchanges(), final(http_client).exchanges());
                &&& extends(old(http_client).exchanges(), final(http_client).exchanges())
                &&& xs.len() == 1
                &&& call_is(xs[0], Method::Get, "scenes"@, None)
                &&& scenes_outcome(xs[0].reply, r)
            }),
    {
        let ghost x = http_client.exchanges();
        let reply = http_client.get("scenes");
        proof {
            lemma_one_more(x, http_client.exchanges().last());
            assert(http_client.exchanges() == x.push(http_client.exchanges().last()));
        }
        match reply {
            Ok(s) => Scene::decode_all(s.as_str()),
            Err(e) => Err(e),
        }
    }

    /// Switching a scene on or off is not implemented: it always reports
    /// so, and sends nothing.
    pub fn set_power<C: HTTPClient>(&self, http_client: &mut C, power: bool) -> (r: Res<()>)
        ensures
            r == Err::<(), HueError>(HueError::NotImplemented),
            *final(http_client) == *old(http_client),
    {
        Err(HueError::NotImplemented)
    }

    /// The scene's identifier, if it has one.
    pub fn identifier(&self) -> (r: Option<String>)
        ensures
            text_of(r) == self@.id,
    {
        match &self.id {
            Some(id) => Some(id.clone()),
            None => None,
        }
    }

    /// The scene's identifier; only a fetched scene has one.
    pub fn id(&self) -> (r: &str)
        requires
            self@.id is Some,
        ensures
            r@ == self@.id->0,
    {
        match &self.id {
            Some(id) => id.as_str(),
            None => "",
        }
    }

    pub fn name(&self) -> (r: &str)
        ensures
            r@ == self@.name,
    {
        self.name.as_str()
    }

    pub fn ty(&self) -> (r: &str)
        ensures
            r@ == self@.ty,
    {
        self.ty.as_str()
    }
}

} // verus!

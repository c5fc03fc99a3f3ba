//! Lights: fetched from the bridge, changed through their state, and
//! written back.
use crate::json::{
    as_str, get_keys_of, get_member_of, json_of, parse_document, parsed, quote, read_opt_str,
    read_str, required, optional, lookup, object_text, Json,
};
use crate::paths::{id_path, path_of};
use crate::state::{state_entries, state_of, LightState, StateModel};
use crate::text::{parse_unsigned, unsigned_of};
use crate::{
    added, call_is, extends, lemma_chain, lemma_one_more, unit_of, Exchange, HTTPClient, HueError,
    Method, Res,
};
use serde_json::Value;
use vstd::prelude::*;

verus! {

/// The mathematical value of a `Light`.
pub struct LightModel {
    pub id: Option<u8>,
    pub state: StateModel,
    pub swupdate: (Seq<char>, Option<Seq<char>>),
    pub ty: Seq<char>,
    pub name: Seq<char>,
    pub modelid: Seq<char>,
    pub manufacturername: Seq<char>,
    pub productname: Seq<char>,
    pub uniqueid: Seq<char>,
    pub swversion: Seq<char>,
}

/// The software update status of a light.
#[derive(Debug, Clone)]
pub struct LightSWUpdate {
    state: String,
    lastinstall: Option<String>,
}

/// A light, as the bridge reports it. Its identifier is not part of the
/// bridge's record: it is attached when the light is fetched.
#[derive(Debug, Clone)]
pub struct Light {
    id: Option<u8>,
    state: LightState,
    swupdate: LightSWUpdate,
    ty: String,
    name: String,
    modelid: String,
    manufacturername: String,
    productname: String,
    uniqueid: String,
    swversion: String,
}

impl View for Light {
    type V = LightModel;

    closed spec fn view(&self) -> LightModel {
        LightModel {
            id: self.id,
            state: self.state@,
            swupdate: (
                self.swupdate.state@,
                match self.swupdate.lastinstall {
                    Some(s) => Some(s@),
                    None => None,
                },
            ),
            ty: self.ty@,
            name: self.name@,
            modelid: self.modelid@,
            manufacturername: self.manufacturername@,
            productname: self.productname@,
            uniqueid: self.uniqueid@,
            swversion: self.swversion@,
        }
    }
}

/// A software update status: a required `state` and an optional
/// `lastinstall`.
pub open spec fn swupdate_of(j: Json) -> Option<(Seq<char>, Option<Seq<char>>)> {
    let state = required(j, "state"@, as_str());
    let last = optional(j, "lastinstall"@, as_str());
    if state is Some && last is Some {
        Some((state->0, last->0))
    } else {
        None
    }
}

/// The light that a JSON object describes, with no identifier.
pub open spec fn light_of(j: Json) -> Option<LightModel> {
    let state = match crate::json::member(j, "state"@) {
        Some(x) => state_of(x),
        None => None,
    };
    let swupdate = match crate::json::member(j, "swupdate"@) {
        Some(x) => swupdate_of(x),
        None => None,
    };
    let ty = required(j, "type"@, as_str());
    let name = required(j, "name"@, as_str());
    let modelid = required(j, "modelid"@, as_str());
    let manufacturername = required(j, "manufacturername"@, as_str());
    let productname = required(j, "productname"@, as_str());
    let uniqueid = required(j, "uniqueid"@, as_str());
    let swversion = required(j, "swversion"@, as_str());
    if state is Some && swupdate is Some && ty is Some && name is Some && modelid is Some
        && manufacturername is Some && productname is Some && uniqueid is Some
        && swversion is Some {
        Some(
            LightModel {
                id: None,
                state: state->0,
                swupdate: swupdate->0,
                ty: ty->0,
                name: name->0,
                modelid: modelid->0,
                manufacturername: manufacturername->0,
                productname: productname->0,
                uniqueid: uniqueid->0,
                swversion: swversion->0,
            },
        )
    } else {
        None
    }
}

/// The light that a response body describes, with identifier `id`.
pub open spec fn decoded_light(text: Seq<char>, id: u8) -> Option<LightModel> {
    match parsed(text) {
        Some(j) => match light_of(j) {
            Some(m) => Some(LightModel { id: Some(id), ..m }),
            None => None,
        },
        None => None,
    }
}

/// The lights that a JSON object maps identifiers to, in the object's
/// order: every key must be the decimal identifier of a light and every
/// value a light, else there are none.
pub open spec fn lights_of(j: Json) -> Option<Seq<LightModel>> {
    match j {
        Json::Object(es) => if forall|i: int|
            0 <= i < es.len() ==> {
                &&& #[trigger] unsigned_of(es[i].0, 255) is Some
                &&& lookup(es, es[i].0) is Some
                &&& light_of(lookup(es, es[i].0)->0) is Some
            } {
            Some(
                Seq::new(
                    es.len(),
                    |i: int|
                        LightModel {
                            id: Some(unsigned_of(es[i].0, 255)->0 as u8),
                            ..light_of(lookup(es, es[i].0)->0)->0
                        },
                ),
            )
        } else {
            None
        },
        _ => None,
    }
}

/// The lights that a response body to a listing describes.
pub open spec fn decoded_lights(text: Seq<char>) -> Option<Seq<LightModel>> {
    match parsed(text) {
        Some(j) => lights_of(j),
        None => None,
    }
}

/// The path of a light.
pub open spec fn light_path(id: u8) -> Seq<char> {
    path_of("lights/"@, id, ""@)
}

/// The path of a light's state.
pub open spec fn light_state_path(id: u8) -> Seq<char> {
    path_of("lights/"@, id, "/state"@)
}

/// The body that writes a state.
pub open spec fn state_body(s: StateModel) -> Seq<char> {
    object_text(state_entries(s))
}

/// What fetching light `id` gives, from the transport's reply: its failure,
/// or the light the body describes, or a decode failure.
pub open spec fn light_outcome(reply: Res<String>, id: u8, r: Res<Light>) -> bool {
    match reply {
        Err(e) => r == Err::<Light, HueError>(e),
        Ok(body) => match decoded_light(body@, id) {
            Some(m) => r is Ok && r->Ok_0@ == m,
            None => r == Err::<Light, HueError>(HueError::Decode),
        },
    }
}

/// What listing the lights gives, from the transport's reply.
pub open spec fn lights_outcome(reply: Res<String>, r: Res<Vec<Light>>) -> bool {
    match reply {
        Err(e) => r == Err::<Vec<Light>, HueError>(e),
        Ok(body) => match decoded_lights(body@) {
            Some(ms) => r is Ok && r->Ok_0@.len() == ms.len() && forall|i: int|
                0 <= i < ms.len() ==> (#[trigger] r->Ok_0@[i])@ == ms[i],
            None => r == Err::<Vec<Light>, HueError>(HueError::Decode),
        },
    }
}

/// The exchanges `xs` of a write of `body` to `put_path` followed, only if
/// it succeeded, by one fetch of light `id`; `r` is the write's failure or
/// what the fetch gives.
pub open spec fn light_write_reread(
    xs: Seq<Exchange>,
    put_path: Seq<char>,
    body: Seq<char>,
    id: u8,
    r: Res<Light>,
) -> bool {
    &&& xs.len() >= 1
    &&& call_is(xs[0], Method::Put, put_path, Some(body))
    &&& match xs[0].reply {
        Err(e) => xs.len() == 1 && r == Err::<Light, HueError>(e),
        Ok(_) => xs.len() == 2 && call_is(xs[1], Method::Get, light_path(id), None)
            && light_outcome(xs[1].reply, id, r),
    }
}

impl LightSWUpdate {
    fn from_value(v: &Value) -> (r: Option<LightSWUpdate>)
        ensures
            match swupdate_of(json_of(*v)) {
                Some(m) => r is Some && r->0.state@ == m.0 && match r->0.lastinstall {
                    Some(s) => m.1 == Some(s@),
                    None => m.1 is None,
                },
                None => r is None,
            },
    {
        let state = match read_str(v, "state") {
            Some(s) => s,
            None => return None,
        };
        let lastinstall = match read_opt_str(v, "lastinstall") {
            Some(s) => s,
            None => return None,
        };
        Some(LightSWUpdate { state, lastinstall })
    }
}

impl Light {
    /// The light that a JSON value describes, with no identifier.
    pub fn from_value(v: &Value) -> (r: Option<Light>)
        ensures
            match light_of(json_of(*v)) {
                Some(m) => r is Some && r->0@ == m,
                None => r is None,
            },
    {
        let state = match get_member_of(v, "state") {
            Some(s) => match LightState::from_value(s) {
                Some(st) => st,
                None => return None,
            },
            None => return None,
        };
        let swupdate = match get_member_of(v, "swupdate") {
            Some(s) => match LightSWUpdate::from_value(s) {
                Some(u) => u,
                None => return None,
            },
            None => return None,
        };
        let ty = match read_str(v, "type") {
            Some(s) => s,
            None => return None,
        };
        let name = match read_str(v, "name") {
            Some(s) => s,
            None => return None,
        };
        let modelid = match read_str(v, "modelid") {
            Some(s) => s,
            None => return None,
        };
        let manufacturername = match read_str(v, "manufacturername") {
            Some(s) => s,
            None => return None,
        };
        let productname = match read_str(v, "productname") {
            Some(s) => s,
            None => return None,
        };
        let uniqueid = match read_str(v, "uniqueid") {
            Some(s) => s,
            None => return None,
        };
        let swversion = match read_str(v, "swversion") {
            Some(s) => s,
            None => return None,
        };
        Some(
            Light {
                id: None,
                state,
                swupdate,
                ty,
                name,
                modelid,
                manufacturername,
                productname,
                uniqueid,
                swversion,
            },
        )
    }

    /// The light that a response body describes, with identifier `id`
    /// attached.
    pub fn decode(body: &str, id: u8) -> (r: Res<Light>)
        ensures
            match decoded_light(body@, id) {
                Some(m) => r is Ok && r->Ok_0@ == m,
                None => r == Err::<Light, HueError>(HueError::Decode),
            },
    {
        let v = match parse_document(body) {
            Ok(v) => v,
            Err(e) => return Err(e),
        };
        match Light::from_value(&v) {
            Some(mut light) => {
                light.id = Some(id);
                Ok(light)
            },
            None => Err(HueError::Decode),
        }
    }

    /// The lights that a response body to a listing describes, each with
    /// the identifier its key spells attached, in the order of the keys.
    pub fn decode_all(body: &str) -> (r: Res<Vec<Light>>)
        ensures
            match decoded_lights(body@) {
                Some(ms) => r is Ok && r->Ok_0@.len() == ms.len() && forall|i: int|
                    0 <= i < ms.len() ==> (#[trigger] r->Ok_0@[i])@ == ms[i],
                None => r == Err::<Vec<Light>, HueError>(HueError::Decode),
            },
            r is Ok ==> forall|i: int| 0 <= i < r->Ok_0@.len() ==> (#[trigger] r->Ok_0@[i])@.id is Some,
            r is Ok ==> match parsed(body@) {
                Some(Json::Object(es)) => forall|i: int|
                    0 <= i < es.len() ==> (#[trigger] r->Ok_0@[i])@.id == Some(
                        unsigned_of(es[i].0, 255)->0 as u8,
                    ),
                _ => false,
            },
    {
        let v = match parse_document(body) {
            Ok(v) => v,
            Err(e) => return Err(e),
        };
        let keys = match get_keys_of(&v) {
            Some(k) => k,
            None => return Err(HueError::Decode),
        };
        let ghost es = match json_of(v) {
            Json::Object(es) => es,
            _ => Seq::empty(),
        };
        let mut out: Vec<Light> = Vec::new();
        let mut i: usize = 0;
        while i < keys.len()
            invariant
                json_of(v) == Json::Object(es),
                parsed(body@) == Some(json_of(v)),
                keys@.len() == es.len(),
                forall|k: int| 0 <= k < es.len() ==> (#[trigger] keys@[k])@ == es[k].0,
                0 <= i <= keys@.len(),
                out@.len() == i,
                forall|k: int|
                    0 <= k < i ==> {
                        &&& #[trigger] unsigned_of(es[k].0, 255) is Some
                        &&& lookup(es, es[k].0) is Some
                        &&& light_of(lookup(es, es[k].0)->0) is Some
                    },
                forall|k: int|
                    0 <= k < i ==> (#[trigger] out@[k])@ == (LightModel {
                        id: Some(unsigned_of(es[k].0, 255)->0 as u8),
                        ..light_of(lookup(es, es[k].0)->0)->0
                    }),
            decreases keys@.len() - i,
        {
            let key = &keys[i];
            let id = match parse_unsigned(key.as_str(), 255) {
                Some(n) => n as u8,
                None => return Err(HueError::Decode),
            };
            let member = match get_member_of(&v, key.as_str()) {
                Some(m) => m,
                None => return Err(HueError::Decode),
            };
            match Light::from_value(member) {
                Some(mut light) => {
                    light.id = Some(id);
                    out.push(light);
                },
                None => return Err(HueError::Decode),
            }
            i = i + 1;
        }
        Ok(out)
    }

    /// The outcome of re-reading a light after a write: the light that the
    /// bridge's reply describes, never the copy that was written.
    pub fn reread(reply: Res<String>, id: u8) -> (r: Res<Light>)
        ensures
            light_outcome(reply, id, r),
    {
        match reply {
            Err(e) => Err(e),
            Ok(body) => Light::decode(body.as_str(), id),
        }
    }

    /// All lights the bridge knows, each with its identifier attached: one
    /// GET of `lights`.
    pub fn get_lights<C: HTTPClient>(http_client: &mut C) -> (r: Res<Vec<Light>>)
        ensures
            ({
                let xs = added(old(http_client).exchanges(), final(http_client).exchanges());
                &&& extends(old(http_client).exchanges(), final(http_client).exchanges())
                &&& xs.len() == 1
                &&& call_is(xs[0], Method::Get, "lights"@, None)
                &&& lights_outcome(xs[0].reply, r)
            }),
            r is Ok ==> forall|i: int| 0 <= i < r->Ok_0@.len() ==> (#[trigger] r->Ok_0@[i])@.id is Some,
    {
        let ghost x = http_client.exchanges();
        let reply = http_client.get("lights");
        proof {
            lemma_one_more(x, http_client.exchanges().last());
            assert(http_client.exchanges() == x.push(http_client.exchanges().last()));
        }
        match reply {
            Ok(s) => Light::decode_all(s.as_str()),
            Err(e) => Err(e),
        }
    }

    /// The light with identifier `id`: one GET of `lights/{id}`.
    pub fn get_light<C: HTTPClient>(http_client: &mut C, id: u8) -> (r: Res<Light>)
        ensures
            ({
                let xs = added(old(http_client).exchanges(), final(http_client).exchanges());
                &&& extends(old(http_client).exchanges(), final(http_client).exchanges())
                &&& xs.len() == 1
                &&& call_is(xs[0], Method::Get, light_path(id), None)
                &&& light_outcome(xs[0].reply, id, r)
            }),
    {
        let ghost x = http_client.exchanges();
        let path = id_path("lights/", id, "");
        let reply = http_client.get(path.as_str());
        proof {
            lemma_one_more(x, http_client.exchanges().last());
            assert(http_client.exchanges() == x.push(http_client.exchanges().last()));
        }
        Light::reread(reply, id)
    }

    /// Writes `body` to `put_path`, then, if that succeeded, fetches the
    /// light again and returns what the bridge reports.
    fn write_then_reread<C: HTTPClient>(http_client: &mut C, put_path: String, body: String, id: u8) -> (r: Res<Light>)
        ensures
            extends(old(http_client).exchanges(), final(http_client).exchanges()),
            light_write_reread(
                added(old(http_client).exchanges(), final(http_client).exchanges()),
                put_path@,
                body@,
                id,
                r,
            ),
    {
        let ghost x = http_client.exchanges();
        let ghost pp = put_path@;
        let ghost bb = body@;
        let written = http_client.put(put_path.as_str(), body);
        let ghost y1 = http_client.exchanges();
        proof {
            lemma_one_more(x, y1.last());
            assert(y1 == x.push(y1.last()));
        }
        if let Err(e) = written {
            return Err(e);
        }
        let reply = http_client.get(id_path("lights/", id, "").as_str());
        proof {
            let y2 = http_client.exchanges();
            lemma_one_more(y1, y2.last());
            assert(y2 == y1.push(y2.last()));
            lemma_chain(x, y1, y2);
            assert(added(x, y2) =~= seq![y1.last(), y2.last()]);
        }
        Light::reread(reply, id)
    }

    /// Writes the light's state to `lights/{id}/state`, then fetches the
    /// light again and returns what the bridge reports.
    pub fn update_state<C: HTTPClient>(self, http_client: &mut C) -> (r: Res<Light>)
        requires
            self@.id is Some,
        ensures
            extends(old(http_client).exchanges(), final(http_client).exchanges()),
            light_write_reread(
                added(old(http_client).exchanges(), final(http_client).exchanges()),
                light_state_path(self@.id->0),
                state_body(self@.state),
                self@.id->0,
                r,
            ),
    {
        let id = self.id();
        let body = self.state.to_json();
        Light::write_then_reread(http_client, id_path("lights/", id, "/state"), body, id)
    }

    /// Writes a new name for the light to `lights/{id}`, then fetches the
    /// light again and returns what the bridge reports.
    pub fn rename<C: HTTPClient>(self, http_client: &mut C, name: &str) -> (r: Res<Light>)
        requires
            self@.id is Some,
        ensures
            extends(old(http_client).exchanges(), final(http_client).exchanges()),
            light_write_reread(
                added(old(http_client).exchanges(), final(http_client).exchanges()),
                light_path(self@.id->0),
                name_body_text(name@),
                self@.id->0,
                r,
            ),
    {
        let id = self.id();
        Light::write_then_reread(http_client, id_path("lights/", id, ""), name_body(name), id)
    }

    /// Deletes the light on the bridge: one DELETE of `lights/{id}`, and no
    /// fetch afterwards.
    pub fn delete<C: HTTPClient>(self, http_client: &mut C) -> (r: Res<()>)
        requires
            self@.id is Some,
        ensures
            ({
                let xs = added(old(http_client).exchanges(), final(http_client).exchanges());
                &&& extends(old(http_client).exchanges(), final(http_client).exchanges())
                &&& xs.len() == 1
                &&& call_is(xs[0], Method::Delete, light_path(self@.id->0), None)
                &&& r == unit_of(xs[0].reply)
            }),
    {
        let ghost x = http_client.exchanges();
        let path = id_path("lights/", self.id(), "");
        let reply = http_client.delete(path.as_str());
        proof {
            lemma_one_more(x, http_client.exchanges().last());
            assert(http_client.exchanges() == x.push(http_client.exchanges().last()));
        }
        match reply {
            Ok(_) => Ok(()),
            Err(e) => Err(e),
        }
    }

    /// The light's identifier, if it has one.
    pub fn identifier(&self) -> (r: Option<u8>)
        ensures
            r == self@.id,
    {
        self.id
    }

    /// The light's identifier; only a fetched light has one.
    pub fn id(&self) -> (r: u8)
        requires
            self@.id is Some,
        ensures
            r == self@.id->0,
    {
        match self.id {
            Some(id) => id,
            None => 0,
        }
    }

    /// The light's state, to be changed in place.
    pub fn state(&mut self) -> (r: &mut LightState)
        ensures
            r@ == old(self)@.state,
            final(self)@ == (LightModel { state: final(r)@, ..old(self)@ }),
    {
        &mut self.state
    }

    /// The light's state.
    pub fn state_ref(&self) -> (r: &LightState)
        ensures
            r@ == self@.state,
    {
        &self.state
    }

    pub fn ty(&self) -> (r: &str)
        ensures
            r@ == self@.ty,
    {
        self.ty.as_str()
    }

    pub fn name(&self) -> (r: &str)
        ensures
            r@ == self@.name,
    {
        self.name.as_str()
    }
}

/// The body of a rename: `{"name":<name>}`.
pub open spec fn name_body_text(name: Seq<char>) -> Seq<char> {
    "{\"name\":"@ + crate::json::quoted(name) + "}"@
}

/// The body of a rename.
pub fn name_body(name: &str) -> (r: String)
    ensures
        r@ == name_body_text(name@),
{
    let mut out = "{\"name\":".to_owned();
    let q = quote(name);
    out.append(q.as_str());
    out.append("}");
    out
}

} // verus!

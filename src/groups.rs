//! Groups of lights: fetched, changed through their action or their
//! attributes, written back, created and deleted.
use crate::json::{
    as_bool, as_str, as_str_list, as_uint_list, close_object, get_keys_of, get_member_of,
    json_of, lookup, member, open_object, optional, parse_document, parsed, push_entry,
    quote, read_bool, read_opt_str, read_str, read_str_list, read_uint_list, required,
    str_array, str_array_text, uint_array, uint_array_text, entry, object_text,
    Json,
};
use crate::paths::{id_path, path_of};
use crate::state::{state_of, LightState, StateModel};
use crate::text::{parse_unsigned, unsigned_of};
use crate::lights::state_body;
use crate::{
    added, call_is, extends, lemma_chain, lemma_one_more, unit_of, Exchange, HTTPClient, HueError,
    Method, Res,
};
use serde_json::Value;
use vstd::prelude::*;

verus! {

/// The mathematical value of a `Group`.
pub struct GroupModel {
    pub id: Option<u8>,
    pub name: Seq<char>,
    pub lights: Seq<Seq<char>>,
    pub sensors: Seq<u8>,
    pub ty: Seq<char>,
    pub state: (bool, bool),
    pub recycle: bool,
    pub class: Option<Seq<char>>,
    pub action: StateModel,
}

/// Whether all, and whether any, of a group's lights are on, as the bridge
/// reports it. It is never written back as such.
#[derive(Debug, Clone, Copy, PartialEq, Eq)]
pub struct GroupState {
    pub all_on: bool,
    pub any_on: bool,
}

/// A group of lights. Its identifier is attached when it is fetched.
#[derive(Debug, Clone)]
pub struct Group {
    id: Option<u8>,
    name: String,
    lights: Vec<String>,
    sensors: Vec<u8>,
    ty: String,
    state: GroupState,
    recycle: bool,
    class: Option<String>,
    action: LightState,
}

impl View for Group {
    type V = GroupModel;

    closed spec fn view(&self) -> GroupModel {
        GroupModel {
            id: self.id,
            name: self.name@,
            lights: self.lights@.map_values(|s: String| s@),
            sensors: self.sensors@,
            ty: self.ty@,
            state: (self.state.all_on, self.state.any_on),
            recycle: self.recycle,
            class: match self.class {
                Some(c) => Some(c@),
                None => None,
            },
            action: self.action@,
        }
    }
}

/// A group's aggregate status: required `all_on` and `any_on`.
pub open spec fn group_state_of(j: Json) -> Option<(bool, bool)> {
    let all_on = required(j, "all_on"@, as_bool());
    let any_on = required(j, "any_on"@, as_bool());
    if all_on is Some && any_on is Some {
        Some((all_on->0, any_on->0))
    } else {
        None
    }
}

/// The group that a JSON object describes, with no identifier.
pub open spec fn group_of(j: Json) -> Option<GroupModel> {
    let name = required(j, "name"@, as_str());
    let lights = required(j, "lights"@, as_str_list());
    let sensors = required(j, "sensors"@, as_uint_list(255));
    let ty = required(j, "type"@, as_str());
    let state = match member(j, "state"@) {
        Some(x) => group_state_of(x),
        None => None,
    };
    let recycle = required(j, "recycle"@, as_bool());
    let class = optional(j, "class"@, as_str());
    let action = match member(j, "action"@) {
        Some(x) => state_of(x),
        None => None,
    };
    if name is Some && lights is Some && sensors is Some && ty is Some && state is Some
        && recycle is Some && class is Some && action is Some {
        Some(
            GroupModel {
                id: None,
                name: name->0,
                lights: lights->0,
                sensors: sensors->0.map_values(|n: nat| n as u8),
                ty: ty->0,
                state: state->0,
                recycle: recycle->0,
                class: class->0,
                action: action->0,
            },
        )
    } else {
        None
    }
}

/// The group that a response body describes, with identifier `id`.
pub open spec fn decoded_group(text: Seq<char>, id: Option<u8>) -> Option<GroupModel> {
    match parsed(text) {
        Some(j) => match group_of(j) {
            Some(m) => Some(GroupModel { id: id, ..m }),
            None => None,
        },
        None => None,
    }
}

/// The groups that a JSON object maps identifiers to, in the object's order:
/// every key must be the decimal identifier of a group and every value a
/// group, else there are none.
pub open spec fn groups_of(j: Json) -> Option<Seq<GroupModel>> {
    match j {
        Json::Object(es) => if forall|i: int|
            0 <= i < es.len() ==> {
                &&& #[trigger] unsigned_of(es[i].0, 255) is Some
                &&& lookup(es, es[i].0) is Some
                &&& group_of(lookup(es, es[i].0)->0) is Some
            } {
            Some(
                Seq::new(
                    es.len(),
                    |i: int|
                        GroupModel {
                            id: Some(unsigned_of(es[i].0, 255)->0 as u8),
                            ..group_of(lookup(es, es[i].0)->0)->0
                        },
                ),
            )
        } else {
            None
        },
        _ => None,
    }
}

/// The groups that a response body to a listing describes.
pub open spec fn decoded_groups(text: Seq<char>) -> Option<Seq<GroupModel>> {
    match parsed(text) {
        Some(j) => groups_of(j),
        None => None,
    }
}

/// The members a group is written with when its attributes are updated:
/// name, lights, type and class. The aggregate status, sensors, recycling
/// and the action are never written this way.
pub open spec fn group_entries(g: GroupModel) -> Seq<(Seq<char>, Json)> {
    seq![
        ("name"@, Json::Str(g.name)),
        ("lights"@, str_array(g.lights)),
        ("type"@, Json::Str(g.ty)),
        ("class"@, match g.class {
            Some(c) => Json::Str(c),
            None => Json::Null,
        }),
    ]
}

/// The members of the body that creates a group, in key order.
pub open spec fn create_entries(name: Seq<char>, lights: Seq<u8>) -> Seq<(Seq<char>, Json)> {
    seq![("lights"@, uint_array(lights)), ("name"@, Json::Str(name))]
}

/// The path of a group.
pub open spec fn group_path(id: u8) -> Seq<char> {
    path_of("groups/"@, id, ""@)
}

/// The path of a group's action.
pub open spec fn group_action_path(id: u8) -> Seq<char> {
    path_of("groups/"@, id, "/action"@)
}

/// What a reply describing a group gives: the transport's failure, or the
/// group the body describes with identifier `id`, or a decode failure.
pub open spec fn group_outcome(reply: Res<String>, id: Option<u8>, r: Res<Group>) -> bool {
    match reply {
        Err(e) => r == Err::<Group, HueError>(e),
        Ok(body) => match decoded_group(body@, id) {
            Some(m) => r is Ok && r->Ok_0@ == m,
            None => r == Err::<Group, HueError>(HueError::Decode),
        },
    }
}

/// What listing the groups gives, from the transport's reply.
pub open spec fn groups_outcome(reply: Res<String>, r: Res<Vec<Group>>) -> bool {
    match reply {
        Err(e) => r == Err::<Vec<Group>, HueError>(e),
        Ok(body) => match decoded_groups(body@) {
            Some(ms) => r is Ok && r->Ok_0@.len() == ms.len() && forall|i: int|
                0 <= i < ms.len() ==> (#[trigger] r->Ok_0@[i])@ == ms[i],
            None => r == Err::<Vec<Group>, HueError>(HueError::Decode),
        },
    }
}

/// The exchanges `xs` of a write of `body` to `put_path` followed, only if
/// it succeeded, by one fetch of group `id`; `r` is the write's failure or
/// what the fetch gives.
pub open spec fn group_write_reread(
    xs: Seq<Exchange>,
    put_path: Seq<char>,
    body: Seq<char>,
    id: u8,
    r: Res<Group>,
) -> bool {
    &&& xs.len() >= 1
    &&& call_is(xs[0], Method::Put, put_path, Some(body))
    &&& match xs[0].reply {
        Err(e) => xs.len() == 1 && r == Err::<Group, HueError>(e),
        Ok(_) => xs.len() == 2 && call_is(xs[1], Method::Get, group_path(id), None)
            && group_outcome(xs[1].reply, Some(id), r),
    }
}

impl Group {
    /// The group that a JSON value describes, with no identifier.
    pub fn from_value(v: &Value) -> (r: Option<Group>)
        ensures
            match group_of(json_of(*v)) {
                Some(m) => r is Some && r->0@ == m,
                None => r is None,
            },
    {
        let name = match read_str(v, "name") {
            Some(s) => s,
            None => return None,
        };
        let lights = match read_str_list(v, "lights") {
            Some(s) => s,
            None => return None,
        };
        let sensor_ids = match read_uint_list(v, "sensors", 255) {
            Some(s) => s,
            None => return None,
        };
        let ty = match read_str(v, "type") {
            Some(s) => s,
            None => return None,
        };
        let state = match get_member_of(v, "state") {
            Some(m) => {
                let all_on = match read_bool(m, "all_on") {
                    Some(b) => b,
                    None => return None,
                };
                let any_on = match read_bool(m, "any_on") {
                    Some(b) => b,
                    None => return None,
                };
                GroupState { all_on, any_on }
            },
            None => return None,
        };
        let recycle = match read_bool(v, "recycle") {
            Some(b) => b,
            None => return None,
        };
        let class = match read_opt_str(v, "class") {
            Some(c) => c,
            None => return None,
        };
        let action = match get_member_of(v, "action") {
            Some(m) => match LightState::from_value(m) {
                Some(a) => a,
                None => return None,
            },
            None => return None,
        };
        let mut sensors: Vec<u8> = Vec::new();
        let mut i: usize = 0;
        while i < sensor_ids.len()
            invariant
                0 <= i <= sensor_ids@.len(),
                forall|k: int| 0 <= k < sensor_ids@.len() ==> #[trigger] sensor_ids@[k] <= 255,
                sensors@.len() == i,
                forall|k: int| 0 <= k < i ==> #[trigger] sensors@[k] == sensor_ids@[k] as u8,
            decreases sensor_ids@.len() - i,
        {
            sensors.push(sensor_ids[i] as u8);
            i = i + 1;
        }
        let g = Group { id: None, name, lights, sensors, ty, state, recycle, class, action };
        proof {
            let j = json_of(*v);
            assert(g@.lights =~= required(j, "lights"@, as_str_list())->0);
            assert(g@.sensors =~= required(j, "sensors"@, as_uint_list(255))->0.map_values(|n: nat| n as u8));
        }
        Some(g)
    }

    /// The group that a response body describes, with identifier `id`.
    pub fn decode(body: &str, id: Option<u8>) -> (r: Res<Group>)
        ensures
            match decoded_group(body@, id) {
                Some(m) => r is Ok && r->Ok_0@ == m,
                None => r == Err::<Group, HueError>(HueError::Decode),
            },
    {
        let v = match parse_document(body) {
            Ok(v) => v,
            Err(e) => return Err(e),
        };
        match Group::from_value(&v) {
            Some(mut group) => {
                group.id = id;
                Ok(group)
            },
            None => Err(HueError::Decode),
        }
    }

    /// The groups that a response body to a listing describes, each with
    /// the identifier its key spells attached, in the order of the keys.
    pub fn decode_all(body: &str) -> (r: Res<Vec<Group>>)
        ensures
            match decoded_groups(body@) {
                Some(ms) => r is Ok && r->Ok_0@.len() == ms.len() && forall|i: int|
                    0 <= i < ms.len() ==> (#[trigger] r->Ok_0@[i])@ == ms[i],
                None => r == Err::<Vec<Group>, HueError>(HueError::Decode),
            },
            r is Ok ==> forall|i: int| 0 <= i < r->Ok_0@.len() ==> (#[trigger] r->Ok_0@[i])@.id is Some,
            r is Ok ==> match parsed(body@) {
                Some(Json::Object(es)) => forall|i: int|
                    0 <= i < es.len() ==> (#[trigger] r->Ok_0@[i])@.id == Some(
                        unsigned_of(es[i].0, 255)->0 as u8,
                    ),
                _ => false,
            },
    {
        let v = match parse_document(body) {
            Ok(v) => v,
            Err(e) => return Err(e),
        };
        let keys = match get_keys_of(&v) {
            Some(k) => k,
            None => return Err(HueError::Decode),
        };
        let ghost es = match json_of(v) {
            Json::Object(es) => es,
            _ => Seq::empty(),
        };
        let mut out: Vec<Group> = Vec::new();
        let mut i: usize = 0;
        while i < keys.len()
            invariant
                json_of(v) == Json::Object(es),
                parsed(body@) == Some(json_of(v)),
                keys@.len() == es.len(),
                forall|k: int| 0 <= k < es.len() ==> (#[trigger] keys@[k])@ == es[k].0,
                0 <= i <= keys@.len(),
                out@.len() == i,
                forall|k: int|
                    0 <= k < i ==> {
                        &&& #[trigger] unsigned_of(es[k].0, 255) is Some
                        &&& lookup(es, es[k].0) is Some
                        &&& group_of(lookup(es, es[k].0)->0) is Some
                    },
                forall|k: int|
                    0 <= k < i ==> (#[trigger] out@[k])@ == (GroupModel {
                        id: Some(unsigned_of(es[k].0, 255)->0 as u8),
                        ..group_of(lookup(es, es[k].0)->0)->0
                    }),
            decreases keys@.len() - i,
        {
            let key = &keys[i];
            let id = match parse_unsigned(key.as_str(), 255) {
                Some(n) => n as u8,
                None => return Err(HueError::Decode),
            };
            let member = match get_member_of(&v, key.as_str()) {
                Some(m) => m,
                None => return Err(HueError::Decode),
            };
            match Group::from_value(member) {
                Some(mut group) => {
                    group.id = Some(id);
                    out.push(group);
                },
                None => return Err(HueError::Decode),
            }
            i = i + 1;
        }
        Ok(out)
    }

    /// The outcome of re-reading a group after a write: the group that the
    /// bridge's reply describes, never the copy that was written.
    pub fn reread(reply: Res<String>, id: u8) -> (r: Res<Group>)
        ensures
            group_outcome(reply, Some(id), r),
    {
        match reply {
            Err(e) => Err(e),
            Ok(body) => Group::decode(body.as_str(), Some(id)),
        }
    }

    /// The JSON text of the group's attributes that an update writes.
    pub fn to_json(&self) -> (r: String)
        ensures
            r@ == object_text(group_entries(self@)),
    {
        let mut out = open_object();
        let mut first = true;
        let ghost e0: Seq<(Seq<char>, Json)> = Seq::empty();
        let ghost j1 = Some(Json::Str(self.name@));
        push_entry(&mut out, Ghost(e0), &mut first, "name", Ghost(j1), Some(quote(self.name.as_str())));
        let ghost e1 = e0 + entry("name"@, j1);
        let ghost j2 = Some(str_array(self@.lights));
        push_entry(&mut out, Ghost(e1), &mut first, "lights", Ghost(j2), Some(str_array_text(&self.lights)));
        let ghost e2 = e1 + entry("lights"@, j2);
        let ghost j3 = Some(Json::Str(self.ty@));
        push_entry(&mut out, Ghost(e2), &mut first, "type", Ghost(j3), Some(quote(self.ty.as_str())));
        let ghost e3 = e2 + entry("type"@, j3);
        let ghost j4 = Some(
            match self@.class {
                Some(c) => Json::Str(c),
                None => Json::Null,
            },
        );
        let t4 = match &self.class {
            Some(c) => quote(c.as_str()),
            None => {
                proof {
                    reveal_strlit("null");
                }
                "null".to_owned()
            },
        };
        push_entry(&mut out, Ghost(e3), &mut first, "class", Ghost(j4), Some(t4));
        let ghost e4 = e3 + entry("class"@, j4);
        assert(e4 =~= group_entries(self@));
        close_object(&mut out, Ghost(e4));
        out
    }

    /// All groups the bridge knows, each with its identifier attached: one
    /// GET of `groups`.
    pub fn get_groups<C: HTTPClient>(http_client: &mut C) -> (r: Res<Vec<Group>>)
        ensures
            ({
                let xs = added(old(http_client).exchanges(), final(http_client).exchanges());
                &&& extends(old(http_client).exchanges(), final(http_client).exchanges())
                &&& xs.len() == 1
                &&& call_is(xs[0], Method::Get, "groups"@, None)
                &&& groups_outcome(xs[0].reply, r)
            }),
            r is Ok ==> forall|i: int| 0 <= i < r->Ok_0@.len() ==> (#[trigger] r->Ok_0@[i])@.id is Some,
    {
        let ghost x = http_client.exchanges();
        let reply = http_client.get("groups");
        proof {
            lemma_one_more(x, http_client.exchanges().last());
            assert(http_client.exchanges() == x.push(http_client.exchanges().last()));
        }
        match reply {
            Ok(s) => Group::decode_all(s.as_str()),
            Err(e) => Err(e),
        }
    }

    /// The group with identifier `id`: one GET of `groups/{id}`.
    pub fn get_group<C: HTTPClient>(http_client: &mut C, id: u8) -> (r: Res<Group>)
        ensures
            ({
                let xs = added(old(http_client).exchanges(), final(http_client).exchanges());
                &&& extends(old(http_client).exchanges(), final(http_client).exchanges())
                &&& xs.len() == 1
                &&& call_is(xs[0], Method::Get, group_path(id), None)
                &&& group_outcome(xs[0].reply, Some(id), r)
            }),
    {
        let ghost x = http_client.exchanges();
        let path = id_path("groups/", id, "");
        let reply = http_client.get(path.as_str());
        proof {
            lemma_one_more(x, http_client.exchanges().last());
            assert(http_client.exchanges() == x.push(http_client.exchanges().last()));
        }
        Group::reread(reply, id)
    }

    /// Deletes the group with identifier `id` on the bridge: one DELETE of
    /// `groups/{id}`.
    pub fn delete_group<C: HTTPClient>(http_client: &mut C, id: u8) -> (r: Res<()>)
        ensures
            ({
                let xs = added(old(http_client).exchanges(), final(http_client).exchanges());
                &&& extends(old(http_client).exchanges(), final(http_client).exchanges())
                &&& xs.len() == 1
                &&& call_is(xs[0], Method::Delete, group_path(id), None)
                &&& r == unit_of(xs[0].reply)
            }),
    {
        let ghost x = http_client.exchanges();
        let path = id_path("groups/", id, "");
        let reply = http_client.delete(path.as_str());
        proof {
            lemma_one_more(x, http_client.exchanges().last());
            assert(http_client.exchanges() == x.push(http_client.exchanges().last()));
        }
        match reply {
            Ok(_) => Ok(()),
            Err(e) => Err(e),
        }
    }

    /// Asks the bridge to create a group of the given lights with one POST
    /// of `groups`, and returns the group its reply describes, with no
    /// identifier. The type and the class are not sent.
    pub fn create_group<C: HTTPClient>(
        http_client: &mut C,
        name: String,
        lights: Vec<u8>,
        ty: Option<String>,
        class: Option<String>,
    ) -> (r: Res<Group>)
        ensures
            ({
                let xs = added(old(http_client).exchanges(), final(http_client).exchanges());
                &&& extends(old(http_client).exchanges(), final(http_client).exchanges())
                &&& xs.len() == 1
                &&& call_is(xs[0], Method::Post, "groups"@, Some(object_text(create_entries(name@, lights@))))
                &&& group_outcome(xs[0].reply, None, r)
            }),
    {
        let ghost x = http_client.exchanges();
        let body = create_body(&name, &lights);
        let reply = http_client.post("groups", body);
        proof {
            lemma_one_more(x, http_client.exchanges().last());
            assert(http_client.exchanges() == x.push(http_client.exchanges().last()));
        }
        match reply {
            Ok(s) => Group::decode(s.as_str(), None),
            Err(e) => Err(e),
        }
    }

    /// Writes `body` to `put_path`, then, if that succeeded, fetches the
    /// group again and returns what the bridge reports.
    fn write_then_reread<C: HTTPClient>(http_client: &mut C, put_path: String, body: String, id: u8) -> (r: Res<Group>)
        ensures
            extends(old(http_client).exchanges(), final(http_client).exchanges()),
            group_write_reread(
                added(old(http_client).exchanges(), final(http_client).exchanges()),
                put_path@,
                body@,
                id,
                r,
            ),
    {
        let ghost x = http_client.exchanges();
        let written = http_client.put(put_path.as_str(), body);
        let ghost y1 = http_client.exchanges();
        proof {
            lemma_one_more(x, y1.last());
            assert(y1 == x.push(y1.last()));
        }
        if let Err(e) = written {
            return Err(e);
        }
        let reply = http_client.get(id_path("groups/", id, "").as_str());
        proof {
            let y2 = http_client.exchanges();
            lemma_one_more(y1, y2.last());
            assert(y2 == y1.push(y2.last()));
            lemma_chain(x, y1, y2);
            assert(added(x, y2) =~= seq![y1.last(), y2.last()]);
        }
        Group::reread(reply, id)
    }

    /// Writes the group's action to `groups/{id}/action`, then fetches the
    /// group again and returns what the bridge reports.
    pub fn update_state<C: HTTPClient>(self, http_client: &mut C) -> (r: Res<Group>)
        requires
            self@.id is Some,
        ensures
            extends(old(http_client).exchanges(), final(http_client).exchanges()),
            group_write_reread(
                added(old(http_client).exchanges(), final(http_client).exchanges()),
                group_action_path(self@.id->0),
                state_body(self@.action),
                self@.id->0,
                r,
            ),
    {
        let id = self.id();
        let body = self.action.to_json();
        Group::write_then_reread(http_client, id_path("groups/", id, "/action"), body, id)
    }

    /// Writes the group's attributes to `groups/{id}`, then fetches the
    /// group again and returns what the bridge reports.
    pub fn update<C: HTTPClient>(self, http_client: &mut C) -> (r: Res<Group>)
        requires
            self@.id is Some,
        ensures
            extends(old(http_client).exchanges(), final(http_client).exchanges()),
            group_write_reread(
                added(old(http_client).exchanges(), final(http_client).exchanges()),
                group_path(self@.id->0),
                object_text(group_entries(self@)),
                self@.id->0,
                r,
            ),
    {
        let id = self.id();
        let body = self.to_json();
        Group::write_then_reread(http_client, id_path("groups/", id, ""), body, id)
    }

    /// Deletes the group on the bridge: one DELETE of `groups/{id}`, and
    /// no fetch afterwards.
    pub fn delete<C: HTTPClient>(self, http_client: &mut C) -> (r: Res<()>)
        requires
            self@.id is Some,
        ensures
            ({
                let xs = added(old(http_client).exchanges(), final(http_client).exchanges());
                &&& extends(old(http_client).exchanges(), final(http_client).exchanges())
                &&& xs.len() == 1
                &&& call_is(xs[0], Method::Delete, group_path(self@.id->0), None)
                &&& r == unit_of(xs[0].reply)
            }),
    {
        Group::delete_group(http_client, self.id())
    }

    /// The group's identifier, if it has one.
    pub fn identifier(&self) -> (r: Option<u8>)
        ensures
            r == self@.id,
    {
        self.id
    }

    /// The group's identifier; only a fetched group has one.
    pub fn id(&self) -> (r: u8)
        requires
            self@.id is Some,
        ensures
            r == self@.id->0,
    {
        match self.id {
            Some(id) => id,
            None => 0,
        }
    }

    /// The group's action, to be changed in place.
    pub fn action(&mut self) -> (r: &mut LightState)
        ensures
            r@ == old(self)@.action,
            final(self)@ == (GroupModel { action: final(r)@, ..old(self)@ }),
    {
        &mut self.action
    }

    /// The group's aggregate status.
    pub fn state(&self) -> (r: GroupState)
        ensures
            (r.all_on, r.any_on) == self@.state,
    {
        self.state
    }

    pub fn ty(&self) -> (r: &str)
        ensures
            r@ == self@.ty,
    {
        self.ty.as_str()
    }

    pub fn name(&self) -> (r: &str)
        ensures
            r@ == self@.name,
    {
        self.name.as_str()
    }
}

/// The body that creates a group.
pub fn create_body(name: &String, lights: &Vec<u8>) -> (r: String)
    ensures
        r@ == object_text(create_entries(name@, lights@)),
{
    let mut out = open_object();
    let mut first = true;
    let ghost e0: Seq<(Seq<char>, Json)> = Seq::empty();
    let ghost j1 = Some(uint_array(lights@));
    push_entry(&mut out, Ghost(e0), &mut first, "lights", Ghost(j1), Some(uint_array_text(lights)));
    let ghost e1 = e0 + entry("lights"@, j1);
    let ghost j2 = Some(Json::Str(name@));
    push_entry(&mut out, Ghost(e1), &mut first, "name", Ghost(j2), Some(quote(name.as_str())));
    let ghost e2 = e1 + entry("name"@, j2);
    assert(e2 =~= create_entries(name@, lights@));
    close_object(&mut out, Ghost(e2));
    out
}

} // verus!

//! The partial state of a light, also a group's action: each attribute is
//! either unset, and then not sent, or set to an explicit value.
use crate::json::{
    as_bool, as_str, as_uint, bool_text, close_object, get_elements_of, get_keys_of, json_of, entry,
    object_text, open_object, optional, present_member_of, push_entry, quote, read_opt_bool,
    read_opt_str, read_opt_uint, scalar_text, value_text, Json, join, lookup, lemma_lookup_entry,
};
use crate::text::{
    decimal, decimal_string, fixed4, fixed4_text, lemma_fixed4_round_trip, lemma_parse_decimal,
    parse_fixed4, push_fixed4,
};
use serde_json::Value;
use vstd::prelude::*;

verus! {

/// The mathematical value of a `LightState`.
pub struct StateModel {
    pub on: Option<bool>,
    pub bri: Option<u8>,
    pub hue: Option<u16>,
    pub sat: Option<u8>,
    pub alert: Option<Seq<char>>,
    pub effect: Option<Seq<char>>,
    pub xy: Option<(u32, u32)>,
    pub ct: Option<u16>,
    pub colormode: Option<Seq<char>>,
    pub mode: Option<Seq<char>>,
    pub reachable: Option<bool>,
    pub transitiontime: Option<u16>,
}

/// The text of an optional string.
pub open spec fn opt_text(o: Option<String>) -> Option<Seq<char>> {
    match o {
        Some(s) => Some(s@),
        None => None,
    }
}

/// The alert modes a light accepts.
pub open spec fn valid_alert(s: Seq<char>) -> bool {
    s == "none"@ || s == "select"@ || s == "lselect"@
}

/// The effects a light accepts.
pub open spec fn valid_effect(s: Seq<char>) -> bool {
    s == "none"@ || s == "colorloop"@
}

/// The state with every attribute unset.
pub open spec fn unset() -> StateModel {
    StateModel {
        on: None,
        bri: None,
        hue: None,
        sat: None,
        alert: None,
        effect: None,
        xy: None,
        ct: None,
        colormode: None,
        mode: None,
        reachable: None,
        transitiontime: None,
    }
}

/// The partial state of a light. A color point `xy` is held in
/// ten-thousandths of the CIE coordinates.
#[derive(Debug, Clone)]
pub struct LightState {
    pub(crate) on: Option<bool>,
    pub(crate) bri: Option<u8>,
    pub(crate) hue: Option<u16>,
    pub(crate) sat: Option<u8>,
    pub(crate) alert: Option<String>,
    pub(crate) effect: Option<String>,
    pub(crate) xy: Option<(u32, u32)>,
    pub(crate) ct: Option<u16>,
    pub(crate) colormode: Option<String>,
    pub(crate) mode: Option<String>,
    pub(crate) reachable: Option<bool>,
    pub(crate) transitiontime: Option<u16>,
}

impl View for LightState {
    type V = StateModel;

    closed spec fn view(&self) -> StateModel {
        StateModel {
            on: self.on,
            bri: self.bri,
            hue: self.hue,
            sat: self.sat,
            alert: opt_text(self.alert),
            effect: opt_text(self.effect),
            xy: self.xy,
            ct: self.ct,
            colormode: opt_text(self.colormode),
            mode: opt_text(self.mode),
            reachable: self.reachable,
            transitiontime: self.transitiontime,
        }
    }
}

/// Whether `s` equals `lit`.
fn same_text(s: &str, lit: &str) -> (r: bool)
    ensures
        r == (s@ == lit@),
{
    s.to_owned() == lit.to_owned()
}

/// Whether `alert` is one of the accepted alert modes.
fn is_valid_alert(alert: &str) -> (r: bool)
    ensures
        r == valid_alert(alert@),
{
    same_text(alert, "none") || same_text(alert, "select") || same_text(alert, "lselect")
}

/// Whether `effect` is one of the accepted effects.
fn is_valid_effect(effect: &str) -> (r: bool)
    ensures
        r == valid_effect(effect@),
{
    same_text(effect, "none") || same_text(effect, "colorloop")
}

/// The text of an optional string, or the empty text when it is unset.
fn text_or_empty(o: &Option<String>) -> (r: String)
    ensures
        r@ == match opt_text(*o) {
            Some(s) => s,
            None => Seq::<char>::empty(),
        },
{
    match o {
        Some(s) => s.clone(),
        None => String::new(),
    }
}

impl LightState {
    /// The state with every attribute unset.
    pub fn new() -> (r: LightState)
        ensures
            r@ == unset(),
    {
        LightState {
            on: None,
            bri: None,
            hue: None,
            sat: None,
            alert: None,
            effect: None,
            xy: None,
            ct: None,
            colormode: None,
            mode: None,
            reachable: None,
            transitiontime: None,
        }
    }

    /// Whether the light is on; false when unset.
    pub fn on(&self) -> (r: bool)
        ensures
            r == (self@.on == Some(true)),
    {
        match self.on {
            Some(b) => b,
            None => false,
        }
    }

    pub fn set_on(&mut self, power: bool) -> (r: &mut Self)
        ensures
            r@ == (StateModel { on: Some(power), ..old(self)@ }),
            *final(self) == *final(r),
    {
        self.on = Some(power);
        self
    }

    /// The brightness; 0 when unset.
    pub fn bri(&self) -> (r: u8)
        ensures
            r == match self@.bri {
                Some(b) => b,
                None => 0,
            },
    {
        match self.bri {
            Some(b) => b,
            None => 0,
        }
    }

    pub fn set_bri(&mut self, bri: u8) -> (r: &mut Self)
        ensures
            r@ == (StateModel { bri: Some(bri), ..old(self)@ }),
            *final(self) == *final(r),
    {
        self.bri = Some(bri);
        self
    }

    /// The hue; 0 when unset.
    pub fn hue(&self) -> (r: u16)
        ensures
            r == match self@.hue {
                Some(h) => h,
                None => 0,
            },
    {
        match self.hue {
            Some(h) => h,
            None => 0,
        }
    }

    /// Sets the hue, only where the light reported one.
    pub fn set_hue(&mut self, hue: u16) -> (r: &mut Self)
        ensures
            r@ == (StateModel {
                hue: if old(self)@.hue is Some { Some(hue) } else { None },
                ..old(self)@
            }),
            *final(self) == *final(r),
    {
        if self.hue.is_some() {
            self.hue = Some(hue);
        }
        self
    }

    /// The saturation; 0 when unset.
    pub fn sat(&self) -> (r: u8)
        ensures
            r == match self@.sat {
                Some(s) => s,
                None => 0,
            },
    {
        match self.sat {
            Some(s) => s,
            None => 0,
        }
    }

    /// Sets the saturation, only where the light reported one.
    pub fn set_sat(&mut self, sat: u8) -> (r: &mut Self)
        ensures
            r@ == (StateModel {
                sat: if old(self)@.sat is Some { Some(sat) } else { None },
                ..old(self)@
            }),
            *final(self) == *final(r),
    {
        if self.sat.is_some() {
            self.sat = Some(sat);
        }
        self
    }

    /// The color temperature; 0 when unset.
    pub fn ct(&self) -> (r: u16)
        ensures
            r == match self@.ct {
                Some(c) => c,
                None => 0,
            },
    {
        match self.ct {
            Some(c) => c,
            None => 0,
        }
    }

    /// Sets the color temperature, only where the light reported one.
    pub fn set_ct(&mut self, ct: u16) -> (r: &mut Self)
        ensures
            r@ == (StateModel {
                ct: if old(self)@.ct is Some { Some(ct) } else { None },
                ..old(self)@
            }),
            *final(self) == *final(r),
    {
        if self.ct.is_some() {
            self.ct = Some(ct);
        }
        self
    }

    /// The color point in ten-thousandths; (0, 0) when unset.
    pub fn xy(&self) -> (r: (u32, u32))
        ensures
            r == match self@.xy {
                Some(p) => p,
                None => (0u32, 0u32),
            },
    {
        match self.xy {
            Some(p) => p,
            None => (0, 0),
        }
    }

    /// Sets the color point, only where the light reported one.
    pub fn set_xy(&mut self, xy: (u32, u32)) -> (r: &mut Self)
        ensures
            r@ == (StateModel {
                xy: if old(self)@.xy is Some { Some(xy) } else { None },
                ..old(self)@
            }),
            *final(self) == *final(r),
    {
        if self.xy.is_some() {
            self.xy = Some(xy);
        }
        self
    }

    /// The alert mode; empty when unset.
    pub fn alert(&self) -> (r: String)
        ensures
            r@ == match self@.alert {
                Some(a) => a,
                None => Seq::<char>::empty(),
            },
    {
        text_or_empty(&self.alert)
    }

    /// Sets the alert mode when it is "none", "select" or "lselect"; any
    /// other value is ignored and the state stays as it was.
    pub fn set_alert(&mut self, alert: &str)
        ensures
            final(self)@ == if valid_alert(alert@) {
                StateModel { alert: Some(alert@), ..old(self)@ }
            } else {
                old(self)@
            },
    {
        if is_valid_alert(alert) {
            self.alert = Some(alert.to_owned());
        }
    }

    /// The effect; empty when unset.
    pub fn effect(&self) -> (r: String)
        ensures
            r@ == match self@.effect {
                Some(e) => e,
                None => Seq::<char>::empty(),
            },
    {
        text_or_empty(&self.effect)
    }

    /// Sets the effect when it is "none" or "colorloop"; any other value is
    /// ignored and the state stays as it was.
    pub fn set_effect(&mut self, effect: &str)
        ensures
            final(self)@ == if valid_effect(effect@) {
                StateModel { effect: Some(effect@), ..old(self)@ }
            } else {
                old(self)@
            },
    {
        if is_valid_effect(effect) {
            self.effect = Some(effect.to_owned());
        }
    }

    /// The color mode the light reported; empty when unset.
    pub fn colormode(&self) -> (r: String)
        ensures
            r@ == match self@.colormode {
                Some(m) => m,
                None => Seq::<char>::empty(),
            },
    {
        text_or_empty(&self.colormode)
    }

    /// Sets the transition time, in tenths of a second, for the next write.
    pub fn set_transitiontime(&mut self, time: u16) -> (r: &mut Self)
        ensures
            r@ == (StateModel { transitiontime: Some(time), ..old(self)@ }),
            *final(self) == *final(r),
    {
        self.transitiontime = Some(time);
        self
    }
}

/// Builds a `LightState` one attribute at a time, from all unset. Alert and
/// effect values outside the accepted ones are ignored, as by the setters.
#[derive(Debug, Clone)]
pub struct LightStateBuilder {
    state: LightState,
}

impl View for LightStateBuilder {
    type V = StateModel;

    closed spec fn view(&self) -> StateModel {
        self.state@
    }
}

impl Default for LightStateBuilder {
    fn default() -> (r: Self)
        ensures
            r@ == unset(),
    {
        LightStateBuilder { state: LightState::new() }
    }
}

impl LightStateBuilder {
    pub fn on(self, on: bool) -> (r: Self)
        ensures
            r@ == (StateModel { on: Some(on), ..self@ }),
    {
        let mut b = self;
        b.state.on = Some(on);
        b
    }

    pub fn bri(self, bri: u8) -> (r: Self)
        ensures
            r@ == (StateModel { bri: Some(bri), ..self@ }),
    {
        let mut b = self;
        b.state.bri = Some(bri);
        b
    }

    pub fn hue(self, hue: u16) -> (r: Self)
        ensures
            r@ == (StateModel { hue: Some(hue), ..self@ }),
    {
        let mut b = self;
        b.state.hue = Some(hue);
        b
    }

    pub fn sat(self, sat: u8) -> (r: Self)
        ensures
            r@ == (StateModel { sat: Some(sat), ..self@ }),
    {
        let mut b = self;
        b.state.sat = Some(sat);
        b
    }

    pub fn xy(self, xy: (u32, u32)) -> (r: Self)
        ensures
            r@ == (StateModel { xy: Some(xy), ..self@ }),
    {
        let mut b = self;
        b.state.xy = Some(xy);
        b
    }

    pub fn ct(self, ct: u16) -> (r: Self)
        ensures
            r@ == (StateModel { ct: Some(ct), ..self@ }),
    {
        let mut b = self;
        b.state.ct = Some(ct);
        b
    }

    pub fn alert(self, alert: &str) -> (r: Self)
        ensures
            r@ == if valid_alert(alert@) {
                StateModel { alert: Some(alert@), ..self@ }
            } else {
                self@
            },
    {
        let mut b = self;
        b.state.set_alert(alert);
        b
    }

    pub fn effect(self, effect: &str) -> (r: Self)
        ensures
            r@ == if valid_effect(effect@) {
                StateModel { effect: Some(effect@), ..self@ }
            } else {
                self@
            },
    {
        let mut b = self;
        b.state.set_effect(effect);
        b
    }

    pub fn transitiontime(self, time: u16) -> (r: Self)
        ensures
            r@ == (StateModel { transitiontime: Some(time), ..self@ }),
    {
        let mut b = self;
        b.state.transitiontime = Some(time);
        b
    }

    pub fn build(self) -> (r: LightState)
        ensures
            r@ == self@,
    {
        self.state
    }
}

/// A color coordinate: a number of at most `u32::MAX` ten-thousandths.
pub open spec fn coordinate_of(j: Json) -> Option<u32> {
    match j {
        Json::Number(t) => match fixed4(t) {
            Some(v) => if v <= u32::MAX {
                Some(v as u32)
            } else {
                None
            },
            None => None,
        },
        _ => None,
    }
}

/// A color point: an array of two coordinates.
pub open spec fn xy_of(j: Json) -> Option<(u32, u32)> {
    match j {
        Json::Array(items) => if items.len() == 2 && coordinate_of(items[0]) is Some && coordinate_of(
            items[1],
        ) is Some {
            Some((coordinate_of(items[0])->0, coordinate_of(items[1])->0))
        } else {
            None
        },
        _ => None,
    }
}

pub open spec fn as_xy() -> spec_fn(Json) -> Option<(u32, u32)> {
    |x: Json| xy_of(x)
}

pub open spec fn narrow8(o: Option<nat>) -> Option<u8> {
    match o {
        Some(n) => Some(n as u8),
        None => None,
    }
}

pub open spec fn narrow16(o: Option<nat>) -> Option<u16> {
    match o {
        Some(n) => Some(n as u16),
        None => None,
    }
}

/// The state that a JSON object describes. Every attribute is optional; one
/// of the wrong type fails the whole state. A transition time is never read.
pub open spec fn state_of(j: Json) -> Option<StateModel> {
    let on = optional(j, "on"@, as_bool());
    let bri = optional(j, "bri"@, as_uint(255));
    let hue = optional(j, "hue"@, as_uint(65535));
    let sat = optional(j, "sat"@, as_uint(255));
    let alert = optional(j, "alert"@, as_str());
    let effect = optional(j, "effect"@, as_str());
    let xy = optional(j, "xy"@, as_xy());
    let ct = optional(j, "ct"@, as_uint(65535));
    let colormode = optional(j, "colormode"@, as_str());
    let mode = optional(j, "mode"@, as_str());
    let reachable = optional(j, "reachable"@, as_bool());
    if j is Object && on is Some && bri is Some && hue is Some && sat is Some && alert is Some
        && effect is Some && xy is Some && ct is Some && colormode is Some && mode is Some
        && reachable is Some {
        Some(
            StateModel {
                on: on->0,
                bri: narrow8(bri->0),
                hue: narrow16(hue->0),
                sat: narrow8(sat->0),
                alert: alert->0,
                effect: effect->0,
                xy: xy->0,
                ct: narrow16(ct->0),
                colormode: colormode->0,
                mode: mode->0,
                reachable: reachable->0,
                transitiontime: None,
            },
        )
    } else {
        None
    }
}

/// The JSON number of a decimal numeral.
pub open spec fn num(n: nat) -> Json {
    Json::Number(decimal(n))
}

/// The JSON array of a color point.
pub open spec fn xy_json(p: (u32, u32)) -> Json {
    Json::Array(seq![Json::Number(fixed4_text(p.0 as nat)), Json::Number(fixed4_text(p.1 as nat))])
}

/// The members a state is written with: the set, writable attributes, in
/// a fixed order. Color mode, mode and reachability are never written.
pub open spec fn state_entries(s: StateModel) -> Seq<(Seq<char>, Json)> {
    entry("on"@, match s.on { Some(b) => Some(Json::Bool(b)), None => None })
        + entry("bri"@, match s.bri { Some(n) => Some(num(n as nat)), None => None })
        + entry("hue"@, match s.hue { Some(n) => Some(num(n as nat)), None => None })
        + entry("sat"@, match s.sat { Some(n) => Some(num(n as nat)), None => None })
        + entry("alert"@, match s.alert { Some(a) => Some(Json::Str(a)), None => None })
        + entry("effect"@, match s.effect { Some(e) => Some(Json::Str(e)), None => None })
        + entry("xy"@, match s.xy { Some(p) => Some(xy_json(p)), None => None })
        + entry("ct"@, match s.ct { Some(n) => Some(num(n as nat)), None => None })
        + entry(
            "transitiontime"@,
            match s.transitiontime { Some(n) => Some(num(n as nat)), None => None },
        )
}

/// The text of a color point.
fn xy_text(p: (u32, u32)) -> (r: String)
    ensures
        r@ == value_text(xy_json(p)),
{
    let mut out = String::new();
    out.append("[");
    push_fixed4(&mut out, p.0);
    out.append(",");
    push_fixed4(&mut out, p.1);
    out.append("]");
    proof {
        reveal_strlit("[");
        reveal_strlit(",");
        reveal_strlit("]");
        let items = seq![Json::Number(fixed4_text(p.0 as nat)), Json::Number(fixed4_text(p.1 as nat))];
        let ts = items.map_values(|x: Json| scalar_text(x));
        assert(ts =~= seq![fixed4_text(p.0 as nat), fixed4_text(p.1 as nat)]);
        assert(ts.drop_last() =~= seq![fixed4_text(p.0 as nat)]);
        assert(join(ts.drop_last()) == fixed4_text(p.0 as nat));
        assert(join(ts) == fixed4_text(p.0 as nat) + seq![','] + fixed4_text(p.1 as nat));
        assert(out@ =~= value_text(xy_json(p)));
    }
    out
}

/// A color point read from a JSON value.
fn xy_value(v: &Value) -> (r: Option<(u32, u32)>)
    ensures
        r == xy_of(json_of(*v)),
{
    let items = match get_elements_of(v) {
        Some(items) => items,
        None => return None,
    };
    if items.len() != 2 {
        return None;
    }
    let x = match coordinate_value(&items[0]) {
        Some(x) => x,
        None => return None,
    };
    let y = match coordinate_value(&items[1]) {
        Some(y) => y,
        None => return None,
    };
    Some((x, y))
}

/// A color coordinate read from a JSON value.
fn coordinate_value(v: &Value) -> (r: Option<u32>)
    ensures
        r == coordinate_of(json_of(*v)),
{
    match crate::json::get_number_text_of(v) {
        Some(t) => parse_fixed4(t.as_str()),
        None => None,
    }
}

impl LightState {
    /// The state that a JSON value describes; None when an attribute has
    /// the wrong type or the value is not an object.
    pub fn from_value(v: &Value) -> (r: Option<LightState>)
        ensures
            match state_of(json_of(*v)) {
                Some(m) => r is Some && r->0@ == m,
                None => r is None,
            },
    {
        if get_keys_of(v).is_none() {
            return None;
        }
        let on = match read_opt_bool(v, "on") {
            Some(x) => x,
            None => return None,
        };
        let bri = match read_opt_uint(v, "bri", 255) {
            Some(x) => x,
            None => return None,
        };
        let hue = match read_opt_uint(v, "hue", 65535) {
            Some(x) => x,
            None => return None,
        };
        let sat = match read_opt_uint(v, "sat", 255) {
            Some(x) => x,
            None => return None,
        };
        let alert = match read_opt_str(v, "alert") {
            Some(x) => x,
            None => return None,
        };
        let effect = match read_opt_str(v, "effect") {
            Some(x) => x,
            None => return None,
        };
        let xy = match present_member_of(v, "xy") {
            Some(m) => match xy_value(m) {
                Some(p) => Some(p),
                None => return None,
            },
            None => None,
        };
        let ct = match read_opt_uint(v, "ct", 65535) {
            Some(x) => x,
            None => return None,
        };
        let colormode = match read_opt_str(v, "colormode") {
            Some(x) => x,
            None => return None,
        };
        let mode = match read_opt_str(v, "mode") {
            Some(x) => x,
            None => return None,
        };
        let reachable = match read_opt_bool(v, "reachable") {
            Some(x) => x,
            None => return None,
        };
        Some(
            LightState {
                on,
                bri: match bri {
                    Some(n) => Some(n as u8),
                    None => None,
                },
                hue: match hue {
                    Some(n) => Some(n as u16),
                    None => None,
                },
                sat: match sat {
                    Some(n) => Some(n as u8),
                    None => None,
                },
                alert,
                effect,
                xy,
                ct: match ct {
                    Some(n) => Some(n as u16),
                    None => None,
                },
                colormode,
                mode,
                reachable,
                transitiontime: None,
            },
        )
    }

    /// The JSON text of the writable attributes that are set: what is sent
    /// to the bridge.
    pub fn to_json(&self) -> (r: String)
        ensures
            r@ == object_text(state_entries(self@)),
    {
        let ghost m = self@;
        let mut out = open_object();
        let mut first = true;
        let ghost e0: Seq<(Seq<char>, Json)> = Seq::empty();
        let ghost j1 = match m.on { Some(b) => Some(Json::Bool(b)), None => None };
        let t1 = match self.on { Some(b) => Some(bool_text(b).to_owned()), None => None };
        push_entry(&mut out, Ghost(e0), &mut first, "on", Ghost(j1), t1);
        let ghost e1 = e0 + entry("on"@, j1);
        let ghost j2 = match m.bri { Some(n) => Some(num(n as nat)), None => None };
        let t2 = match self.bri { Some(n) => Some(decimal_string(n as u64)), None => None };
        push_entry(&mut out, Ghost(e1), &mut first, "bri", Ghost(j2), t2);
        let ghost e2 = e1 + entry("bri"@, j2);
        let ghost j3 = match m.hue { Some(n) => Some(num(n as nat)), None => None };
        let t3 = match self.hue { Some(n) => Some(decimal_string(n as u64)), None => None };
        push_entry(&mut out, Ghost(e2), &mut first, "hue", Ghost(j3), t3);
        let ghost e3 = e2 + entry("hue"@, j3);
        let ghost j4 = match m.sat { Some(n) => Some(num(n as nat)), None => None };
        let t4 = match self.sat { Some(n) => Some(decimal_string(n as u64)), None => None };
        push_entry(&mut out, Ghost(e3), &mut first, "sat", Ghost(j4), t4);
        let ghost e4 = e3 + entry("sat"@, j4);
        let ghost j5 = match m.alert { Some(a) => Some(Json::Str(a)), None => None };
        let t5 = match &self.alert { Some(a) => Some(quote(a.as_str())), None => None };
        push_entry(&mut out, Ghost(e4), &mut first, "alert", Ghost(j5), t5);
        let ghost e5 = e4 + entry("alert"@, j5);
        let ghost j6 = match m.effect { Some(e) => Some(Json::Str(e)), None => None };
        let t6 = match &self.effect { Some(e) => Some(quote(e.as_str())), None => None };
        push_entry(&mut out, Ghost(e5), &mut first, "effect", Ghost(j6), t6);
        let ghost e6 = e5 + entry("effect"@, j6);
        let ghost j7 = match m.xy { Some(p) => Some(xy_json(p)), None => None };
        let t7 = match self.xy { Some(p) => Some(xy_text(p)), None => None };
        push_entry(&mut out, Ghost(e6), &mut first, "xy", Ghost(j7), t7);
        let ghost e7 = e6 + entry("xy"@, j7);
        let ghost j8 = match m.ct { Some(n) => Some(num(n as nat)), None => None };
        let t8 = match self.ct { Some(n) => Some(decimal_string(n as u64)), None => None };
        push_entry(&mut out, Ghost(e7), &mut first, "ct", Ghost(j8), t8);
        let ghost e8 = e7 + entry("ct"@, j8);
        let ghost j9 = match m.transitiontime { Some(n) => Some(num(n as nat)), None => None };
        let t9 = match self.transitiontime { Some(n) => Some(decimal_string(n as u64)), None => None };
        push_entry(&mut out, Ghost(e8), &mut first, "transitiontime", Ghost(j9), t9);
        let ghost e9 = e8 + entry("transitiontime"@, j9);
        assert(e9 =~= state_entries(m));
        close_object(&mut out, Ghost(e9));
        out
    }
}

/// The members a state is written with, as they are built up.
spec fn entries_upto(s: StateModel, n: nat) -> Seq<(Seq<char>, Json)>
    decreases n,
{
    if n == 0 {
        Seq::empty()
    } else {
        entries_upto(s, (n - 1) as nat) + entry(entry_key((n - 1) as nat), entry_value(s, (n - 1) as nat))
    }
}

/// The key of the `i`-th attribute a state is written with.
spec fn entry_key(i: nat) -> Seq<char> {
    if i == 0 {
        "on"@
    } else if i == 1 {
        "bri"@
    } else if i == 2 {
        "hue"@
    } else if i == 3 {
        "sat"@
    } else if i == 4 {
        "alert"@
    } else if i == 5 {
        "effect"@
    } else if i == 6 {
        "xy"@
    } else if i == 7 {
        "ct"@
    } else {
        "transitiontime"@
    }
}

/// The value of the `i`-th attribute a state is written with, when set.
spec fn entry_value(s: StateModel, i: nat) -> Option<Json> {
    if i == 0 {
        match s.on { Some(b) => Some(Json::Bool(b)), None => None }
    } else if i == 1 {
        match s.bri { Some(n) => Some(num(n as nat)), None => None }
    } else if i == 2 {
        match s.hue { Some(n) => Some(num(n as nat)), None => None }
    } else if i == 3 {
        match s.sat { Some(n) => Some(num(n as nat)), None => None }
    } else if i == 4 {
        match s.alert { Some(a) => Some(Json::Str(a)), None => None }
    } else if i == 5 {
        match s.effect { Some(e) => Some(Json::Str(e)), None => None }
    } else if i == 6 {
        match s.xy { Some(p) => Some(xy_json(p)), None => None }
    } else if i == 7 {
        match s.ct { Some(n) => Some(num(n as nat)), None => None }
    } else {
        match s.transitiontime { Some(n) => Some(num(n as nat)), None => None }
    }
}

/// The value of the first of the first `n` attributes whose key is `q` and
/// which is set.
spec fn found(s: StateModel, q: Seq<char>, n: nat) -> Option<Json>
    decreases n,
{
    if n == 0 {
        None
    } else {
        match found(s, q, (n - 1) as nat) {
            Some(x) => Some(x),
            None => if entry_key((n - 1) as nat) == q {
                entry_value(s, (n - 1) as nat)
            } else {
                None
            },
        }
    }
}

proof fn lemma_lookup_found(s: StateModel, q: Seq<char>, n: nat)
    ensures
        lookup(entries_upto(s, n), q) == found(s, q, n),
    decreases n,
{
    if n > 0 {
        lemma_lookup_found(s, q, (n - 1) as nat);
        lemma_lookup_entry(entries_upto(s, (n - 1) as nat), entry_key((n - 1) as nat), entry_value(s, (n - 1) as nat), q);
    }
}

/// The keys a state is written with are distinct, and none of them is a
/// read-only attribute's: each starts with its own letter.
proof fn lemma_entry_keys()
    ensures
        forall|i: nat, j: nat| i < 9 && j < 9 && i != j ==> #[trigger] entry_key(i) != #[trigger] entry_key(j),
        forall|i: nat|
            i < 9 ==> #[trigger] entry_key(i) != "colormode"@ && entry_key(i) != "mode"@ && entry_key(i) != "reachable"@,
{
    reveal_strlit("on");
    reveal_strlit("bri");
    reveal_strlit("hue");
    reveal_strlit("sat");
    reveal_strlit("alert");
    reveal_strlit("effect");
    reveal_strlit("xy");
    reveal_strlit("ct");
    reveal_strlit("transitiontime");
    reveal_strlit("colormode");
    reveal_strlit("mode");
    reveal_strlit("reachable");
    assert forall|i: nat, j: nat| i < 9 && j < 9 && i != j implies #[trigger] entry_key(i) != #[trigger] entry_key(j) by {
        assert(entry_key(i)[0] != entry_key(j)[0]);
    }
    assert forall|i: nat| i < 9 implies #[trigger] entry_key(i) != "colormode"@ && entry_key(i) != "mode"@
        && entry_key(i) != "reachable"@ by {
        assert(entry_key(i)[0] != "mode"@[0] && entry_key(i)[0] != "reachable"@[0]);
        assert(entry_key(i)[0] != "colormode"@[0] || entry_key(i).len() != "colormode"@.len());
    }
}

/// Among the first `n` attributes, the one under a key that no other
/// attribute has is found exactly when it is among them.
proof fn lemma_found_key(s: StateModel, idx: nat, n: nat)
    requires
        idx < 9,
        n <= 9,
        forall|i: nat| i < 9 && i != idx ==> #[trigger] entry_key(i) != entry_key(idx),
    ensures
        found(s, entry_key(idx), n) == if idx < n {
            entry_value(s, idx)
        } else {
            None
        },
    decreases n,
{
    if n > 0 {
        lemma_found_key(s, idx, (n - 1) as nat);
    }
}

/// A key that no attribute has is never found.
proof fn lemma_found_absent(s: StateModel, q: Seq<char>, n: nat)
    requires
        n <= 9,
        forall|i: nat| i < 9 ==> #[trigger] entry_key(i) != q,
    ensures
        found(s, q, n) is None,
    decreases n,
{
    if n > 0 {
        lemma_found_absent(s, q, (n - 1) as nat);
    }
}

/// Where each attribute's member stands among those a state is written with.
proof fn lemma_state_lookups(s: StateModel)
    ensures
        lookup(state_entries(s), "on"@) == match s.on { Some(b) => Some(Json::Bool(b)), None => None },
        lookup(state_entries(s), "bri"@) == match s.bri { Some(n) => Some(num(n as nat)), None => None },
        lookup(state_entries(s), "hue"@) == match s.hue { Some(n) => Some(num(n as nat)), None => None },
        lookup(state_entries(s), "sat"@) == match s.sat { Some(n) => Some(num(n as nat)), None => None },
        lookup(state_entries(s), "alert"@) == match s.alert { Some(a) => Some(Json::Str(a)), None => None },
        lookup(state_entries(s), "effect"@) == match s.effect { Some(e) => Some(Json::Str(e)), None => None },
        lookup(state_entries(s), "xy"@) == match s.xy { Some(p) => Some(xy_json(p)), None => None },
        lookup(state_entries(s), "ct"@) == match s.ct { Some(n) => Some(num(n as nat)), None => None },
        lookup(state_entries(s), "colormode"@) is None,
        lookup(state_entries(s), "mode"@) is None,
        lookup(state_entries(s), "reachable"@) is None,
{
    reveal_with_fuel(entries_upto, 10);
    assert(entries_upto(s, 9) =~= state_entries(s));
    lemma_entry_keys();
    lemma_lookup_found(s, entry_key(0), 9);
    lemma_found_key(s, 0, 9);
    lemma_lookup_found(s, entry_key(1), 9);
    lemma_found_key(s, 1, 9);
    lemma_lookup_found(s, entry_key(2), 9);
    lemma_found_key(s, 2, 9);
    lemma_lookup_found(s, entry_key(3), 9);
    lemma_found_key(s, 3, 9);
    lemma_lookup_found(s, entry_key(4), 9);
    lemma_found_key(s, 4, 9);
    lemma_lookup_found(s, entry_key(5), 9);
    lemma_found_key(s, 5, 9);
    lemma_lookup_found(s, entry_key(6), 9);
    lemma_found_key(s, 6, 9);
    lemma_lookup_found(s, entry_key(7), 9);
    lemma_found_key(s, 7, 9);
    lemma_lookup_found(s, "colormode"@, 9);
    lemma_found_absent(s, "colormode"@, 9);
    lemma_lookup_found(s, "mode"@, 9);
    lemma_found_absent(s, "mode"@, 9);
    lemma_lookup_found(s, "reachable"@, 9);
    lemma_found_absent(s, "reachable"@, 9);
}

/// Reading back the members that a state is written with gives the same
/// state, but for what is never written (color mode, mode, reachability)
/// and the transition time, which is never read.
pub proof fn lemma_round_trip(s: StateModel)
    ensures
        state_of(Json::Object(state_entries(s))) == Some(
            StateModel { colormode: None, mode: None, reachable: None, transitiontime: None, ..s },
        ),
{
    lemma_state_lookups(s);
    if let Some(n) = s.bri {
        lemma_parse_decimal(n as nat, 255);
    }
    if let Some(n) = s.hue {
        lemma_parse_decimal(n as nat, 65535);
    }
    if let Some(n) = s.sat {
        lemma_parse_decimal(n as nat, 255);
    }
    if let Some(n) = s.ct {
        lemma_parse_decimal(n as nat, 65535);
    }
    if let Some(p) = s.xy {
        lemma_fixed4_round_trip(p.0 as nat);
        lemma_fixed4_round_trip(p.1 as nat);
    }
}

} // verus!

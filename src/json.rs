//! JSON documents as the bridge sends them: text is parsed by serde_json, and
//! the library reads the parsed value through the accessors below, whose
//! contracts speak of the model `Json`.
use crate::text::{decimal, digit_char, parse_bounded, parse_decimal, push_decimal};
use crate::{HueError, Res};
use serde_json::Value;
use vstd::prelude::*;

verus! {

/// A JSON value. Numbers are kept as the text that serde_json writes for
/// them; object members are in the order in which serde_json's map yields
/// them.
pub enum Json {
    Null,
    Bool(bool),
    Number(Seq<char>),
    Str(Seq<char>),
    Array(Seq<Json>),
    Object(Seq<(Seq<char>, Json)>),
}

#[verifier::external_type_specification]
#[verifier::external_body]
pub struct ExValue(serde_json::Value);

#[verifier::external_type_specification]
#[verifier::external_body]
pub struct ExJsonError(serde_json::Error);

/// The JSON value that a text denotes, or None when it is not valid JSON.
pub uninterp spec fn parsed(text: Seq<char>) -> Option<Json>;

/// The JSON value that a parsed `Value` holds.
pub uninterp spec fn json_of(v: Value) -> Json;

/// The lower-case hexadecimal digit of a value below sixteen.
pub open spec fn hex_digit(d: nat) -> char {
    if d < 10 {
        digit_char(d)
    } else if d == 10 {
        'a'
    } else if d == 11 {
        'b'
    } else if d == 12 {
        'c'
    } else if d == 13 {
        'd'
    } else if d == 14 {
        'e'
    } else {
        'f'
    }
}

/// How one character stands inside a JSON string literal: quote and
/// backslash behind a backslash, the five usual control characters by
/// their short escapes, the other control characters as `\u00XX`, and
/// every other character as itself.
pub open spec fn escaped_char(c: char) -> Seq<char> {
    if c == '"' {
        seq!['\\', '"']
    } else if c == '\\' {
        seq!['\\', '\\']
    } else if c == '\u{8}' {
        seq!['\\', 'b']
    } else if c == '\t' {
        seq!['\\', 't']
    } else if c == '\n' {
        seq!['\\', 'n']
    } else if c == '\u{c}' {
        seq!['\\', 'f']
    } else if c == '\r' {
        seq!['\\', 'r']
    } else if (c as nat) < 32 {
        seq!['\\', 'u', '0', '0', hex_digit(c as nat / 16), hex_digit(c as nat % 16)]
    } else {
        seq![c]
    }
}

/// The characters of a string, each as it stands inside a JSON literal.
pub open spec fn escaped(s: Seq<char>) -> Seq<char>
    decreases s.len(),
{
    if s.len() == 0 {
        Seq::empty()
    } else {
        escaped(s.drop_last()) + escaped_char(s.last())
    }
}

/// The JSON string literal that serde_json writes for a string.
pub open spec fn quoted(s: Seq<char>) -> Seq<char> {
    seq!['"'] + escaped(s) + seq!['"']
}

/// Relies on serde_json::from_str into a `Value`: it succeeds exactly on
/// valid JSON text, and the value is what the text denotes.
#[verifier::external_body]
fn from_text(text: &str) -> (r: Result<Value, serde_json::Error>)
    ensures
        r is Ok <==> parsed(text@) is Some,
        r is Ok ==> parsed(text@) == Some(json_of(r->Ok_0)),
{
    serde_json::from_str::<Value>(text)
}

/// Relies on serde_json::Value::get with a string key: the member under the
/// key when the value is an object that has one, else None.
#[verifier::external_body]
pub(crate) fn get_member_of<'a>(v: &'a Value, key: &str) -> (r: Option<&'a Value>)
    ensures
        match member(json_of(*v), key@) {
            Some(j) => r is Some && json_of(*r->0) == j,
            None => r is None,
        },
{
    v.get(key)
}

/// Relies on serde_json::Value::as_bool: the boolean that a Bool holds.
#[verifier::external_body]
fn get_bool(v: &Value) -> (r: Option<bool>)
    ensures
        r == bool_of(json_of(*v)),
{
    v.as_bool()
}

/// Relies on serde_json::Value::as_str: the text that a String holds.
#[verifier::external_body]
fn get_str(v: &Value) -> (r: Option<String>)
    ensures
        match str_of(json_of(*v)) {
            Some(s) => r is Some && r->0@ == s,
            None => r is None,
        },
{
    v.as_str().map(str::to_owned)
}

/// Relies on serde_json::Value::as_number and the number's `Display`: the
/// text serde_json writes for a Number.
#[verifier::external_body]
pub(crate) fn get_number_text_of(v: &Value) -> (r: Option<String>)
    ensures
        match json_of(*v) {
            Json::Number(t) => r is Some && r->0@ == t,
            _ => r is None,
        },
{
    v.as_number().map(|n| n.to_string())
}

/// Relies on serde_json::Value::is_null.
#[verifier::external_body]
fn get_is_null(v: &Value) -> (r: bool)
    ensures
        r == (json_of(*v) is Null),
{
    v.is_null()
}

/// Relies on serde_json::Value::as_array: the elements of an Array, in order.
#[verifier::external_body]
pub(crate) fn get_elements_of(v: &Value) -> (r: Option<Vec<Value>>)
    ensures
        match json_of(*v) {
            Json::Array(items) => r is Some && r->0@.len() == items.len() && forall|i: int|
                0 <= i < items.len() ==> json_of(#[trigger] r->0@[i]) == items[i],
            _ => r is None,
        },
{
    v.as_array().cloned()
}

/// Relies on serde_json::Value::as_object and Map::keys: the keys of an
/// Object, in the map's order.
#[verifier::external_body]
pub(crate) fn get_keys_of(v: &Value) -> (r: Option<Vec<String>>)
    ensures
        match json_of(*v) {
            Json::Object(es) => r is Some && r->0@.len() == es.len() && forall|i: int|
                0 <= i < es.len() ==> (#[trigger] r->0@[i])@ == es[i].0,
            _ => r is None,
        },
{
    v.as_object().map(|m| m.keys().cloned().collect())
}

/// Relies on serde_json's `Display` of a `Value::String`, which writes the
/// string between quotes, escaping bytes as its `ESCAPE` table says.
#[verifier::external_body]
pub fn quote(s: &str) -> (r: String)
    ensures
        r@ == quoted(s@),
{
    Value::String(s.to_owned()).to_string()
}

/// The member of an object under `k`: the first one, in the map's order.
pub open spec fn lookup(es: Seq<(Seq<char>, Json)>, k: Seq<char>) -> Option<Json>
    decreases es.len(),
{
    if es.len() == 0 {
        None
    } else if es[0].0 == k {
        Some(es[0].1)
    } else {
        lookup(es.drop_first(), k)
    }
}

/// The member of `j` under `k`, when `j` is an object that has one.
pub open spec fn member(j: Json, k: Seq<char>) -> Option<Json> {
    match j {
        Json::Object(es) => lookup(es, k),
        _ => None,
    }
}

/// The member of `j` under `k`, when there is one and it is not null.
pub open spec fn present(j: Json, k: Seq<char>) -> Option<Json> {
    match member(j, k) {
        Some(Json::Null) => None,
        m => m,
    }
}

pub open spec fn bool_of(j: Json) -> Option<bool> {
    match j {
        Json::Bool(b) => Some(b),
        _ => None,
    }
}

pub open spec fn str_of(j: Json) -> Option<Seq<char>> {
    match j {
        Json::Str(s) => Some(s),
        _ => None,
    }
}

/// A number written as a plain run of digits whose value is at most `max`.
pub open spec fn uint_of(j: Json, max: nat) -> Option<nat> {
    match j {
        Json::Number(t) => parse_bounded(t, max),
        _ => None,
    }
}

/// An array of strings.
pub open spec fn str_list_of(j: Json) -> Option<Seq<Seq<char>>> {
    match j {
        Json::Array(items) => if forall|i: int| 0 <= i < items.len() ==> (#[trigger] str_of(items[i])) is Some {
            Some(items.map_values(|x: Json| str_of(x)->0))
        } else {
            None
        },
        _ => None,
    }
}

/// An array of numbers, each at most `max`.
pub open spec fn uint_list_of(j: Json, max: nat) -> Option<Seq<nat>> {
    match j {
        Json::Array(items) => if forall|i: int| 0 <= i < items.len() ==> (#[trigger] uint_of(items[i], max)) is Some {
            Some(items.map_values(|x: Json| uint_of(x, max)->0))
        } else {
            None
        },
        _ => None,
    }
}

/// A required field: the member under `k` read by `f`; None when it is
/// missing or `f` refuses it.
pub open spec fn required<T>(j: Json, k: Seq<char>, f: spec_fn(Json) -> Option<T>) -> Option<T> {
    match member(j, k) {
        Some(x) => f(x),
        None => None,
    }
}

/// An optional field: Some(None) when the member under `k` is missing or
/// null, Some(Some(v)) when `f` reads it as `v`, None when `f` refuses it.
pub open spec fn optional<T>(j: Json, k: Seq<char>, f: spec_fn(Json) -> Option<T>) -> Option<Option<T>> {
    match present(j, k) {
        None => Some(None),
        Some(x) => match f(x) {
            Some(v) => Some(Some(v)),
            None => None,
        },
    }
}

pub open spec fn as_bool() -> spec_fn(Json) -> Option<bool> {
    |x: Json| bool_of(x)
}

pub open spec fn as_str() -> spec_fn(Json) -> Option<Seq<char>> {
    |x: Json| str_of(x)
}

pub open spec fn as_uint(max: nat) -> spec_fn(Json) -> Option<nat> {
    |x: Json| uint_of(x, max)
}

pub open spec fn as_str_list() -> spec_fn(Json) -> Option<Seq<Seq<char>>> {
    |x: Json| str_list_of(x)
}

pub open spec fn as_uint_list(max: nat) -> spec_fn(Json) -> Option<Seq<nat>> {
    |x: Json| uint_list_of(x, max)
}

/// Parses a response body; text that is not JSON is a decode failure.
pub fn parse_document(text: &str) -> (r: Res<Value>)
    ensures
        match parsed(text@) {
            Some(j) => r is Ok && json_of(r->Ok_0) == j,
            None => r == Err::<Value, HueError>(HueError::Decode),
        },
{
    match from_text(text) {
        Ok(v) => Ok(v),
        Err(_) => Err(HueError::Decode),
    }
}

/// The member under `k` when it is there and not null.
pub(crate) fn present_member_of<'a>(v: &'a Value, k: &str) -> (r: Option<&'a Value>)
    ensures
        match present(json_of(*v), k@) {
            Some(j) => r is Some && json_of(*r->0) == j,
            None => r is None,
        },
{
    match get_member_of(v, k) {
        Some(m) => if get_is_null(m) {
            None
        } else {
            Some(m)
        },
        None => None,
    }
}

/// A number written as a plain run of digits whose value is at most `max`.
pub fn uint_value(v: &Value, max: u64) -> (r: Option<u64>)
    ensures
        match uint_of(json_of(*v), max as nat) {
            Some(n) => r == Some(n as u64),
            None => r is None,
        },
{
    match get_number_text_of(v) {
        Some(t) => parse_decimal(t.as_str(), max),
        None => None,
    }
}

/// An array of strings.
pub fn str_list_value(v: &Value) -> (r: Option<Vec<String>>)
    ensures
        match str_list_of(json_of(*v)) {
            Some(ss) => r is Some && r->0@.len() == ss.len() && forall|i: int|
                0 <= i < ss.len() ==> (#[trigger] r->0@[i])@ == ss[i],
            None => r is None,
        },
{
    let items = match get_elements_of(v) {
        Some(items) => items,
        None => return None,
    };
    let ghost js = match json_of(*v) {
        Json::Array(js) => js,
        _ => Seq::empty(),
    };
    let mut out: Vec<String> = Vec::new();
    let mut i: usize = 0;
    while i < items.len()
        invariant
            json_of(*v) == Json::Array(js),
            items@.len() == js.len(),
            forall|k: int| 0 <= k < js.len() ==> json_of(#[trigger] items@[k]) == js[k],
            0 <= i <= items.len(),
            out@.len() == i,
            forall|k: int| 0 <= k < i ==> (#[trigger] str_of(js[k])) is Some,
            forall|k: int| 0 <= k < i ==> (#[trigger] out@[k])@ == str_of(js[k])->0,
        decreases items.len() - i,
    {
        match get_str(&items[i]) {
            Some(s) => out.push(s),
            None => return None,
        }
        i = i + 1;
    }
    Some(out)
}

/// An array of numbers, each at most `max`.
pub fn uint_list_value(v: &Value, max: u64) -> (r: Option<Vec<u64>>)
    ensures
        match uint_list_of(json_of(*v), max as nat) {
            Some(ns) => r is Some && r->0@.len() == ns.len() && forall|i: int|
                0 <= i < ns.len() ==> (#[trigger] r->0@[i]) as nat == ns[i],
            None => r is None,
        },
{
    let items = match get_elements_of(v) {
        Some(items) => items,
        None => return None,
    };
    let ghost js = match json_of(*v) {
        Json::Array(js) => js,
        _ => Seq::empty(),
    };
    let mut out: Vec<u64> = Vec::new();
    let mut i: usize = 0;
    while i < items.len()
        invariant
            json_of(*v) == Json::Array(js),
            items@.len() == js.len(),
            forall|k: int| 0 <= k < js.len() ==> json_of(#[trigger] items@[k]) == js[k],
            0 <= i <= items.len(),
            out@.len() == i,
            forall|k: int| 0 <= k < i ==> (#[trigger] uint_of(js[k], max as nat)) is Some,
            forall|k: int| 0 <= k < i ==> (#[trigger] out@[k]) as nat == uint_of(js[k], max as nat)->0,
        decreases items.len() - i,
    {
        match uint_value(&items[i], max) {
            Some(n) => out.push(n),
            None => return None,
        }
        i = i + 1;
    }
    Some(out)
}

/// A required boolean field.
pub fn read_bool(v: &Value, k: &str) -> (r: Option<bool>)
    ensures
        r == required(json_of(*v), k@, as_bool()),
{
    match get_member_of(v, k) {
        Some(m) => get_bool(m),
        None => None,
    }
}

/// An optional boolean field.
pub fn read_opt_bool(v: &Value, k: &str) -> (r: Option<Option<bool>>)
    ensures
        r == optional(json_of(*v), k@, as_bool()),
{
    match present_member_of(v, k) {
        Some(m) => match get_bool(m) {
            Some(b) => Some(Some(b)),
            None => None,
        },
        None => Some(None),
    }
}

/// A required numeric field of at most `max`.
pub fn read_uint(v: &Value, k: &str, max: u64) -> (r: Option<u64>)
    ensures
        match required(json_of(*v), k@, as_uint(max as nat)) {
            Some(n) => r == Some(n as u64),
            None => r is None,
        },
{
    match get_member_of(v, k) {
        Some(m) => uint_value(m, max),
        None => None,
    }
}

/// An optional numeric field of at most `max`.
pub fn read_opt_uint(v: &Value, k: &str, max: u64) -> (r: Option<Option<u64>>)
    ensures
        match optional(json_of(*v), k@, as_uint(max as nat)) {
            Some(Some(n)) => r == Some(Some(n as u64)),
            Some(None) => r == Some(None::<u64>),
            None => r is None,
        },
{
    match present_member_of(v, k) {
        Some(m) => match uint_value(m, max) {
            Some(n) => Some(Some(n)),
            None => None,
        },
        None => Some(None),
    }
}

/// A required string field.
pub fn read_str(v: &Value, k: &str) -> (r: Option<String>)
    ensures
        match required(json_of(*v), k@, as_str()) {
            Some(s) => r is Some && r->0@ == s,
            None => r is None,
        },
{
    match get_member_of(v, k) {
        Some(m) => get_str(m),
        None => None,
    }
}

/// An optional string field.
pub fn read_opt_str(v: &Value, k: &str) -> (r: Option<Option<String>>)
    ensures
        match optional(json_of(*v), k@, as_str()) {
            Some(Some(s)) => r is Some && r->0 is Some && r->0->0@ == s,
            Some(None) => r == Some(None::<String>),
            None => r is None,
        },
{
    match present_member_of(v, k) {
        Some(m) => match get_str(m) {
            Some(s) => Some(Some(s)),
            None => None,
        },
        None => Some(None),
    }
}

/// A required field that is an array of strings.
pub fn read_str_list(v: &Value, k: &str) -> (r: Option<Vec<String>>)
    ensures
        match required(json_of(*v), k@, as_str_list()) {
            Some(ss) => r is Some && r->0@.len() == ss.len() && forall|i: int|
                0 <= i < ss.len() ==> (#[trigger] r->0@[i])@ == ss[i],
            None => r is None,
        },
{
    match get_member_of(v, k) {
        Some(m) => str_list_value(m),
        None => None,
    }
}

/// A required field that is an array of numbers, each at most `max`.
pub fn read_uint_list(v: &Value, k: &str, max: u64) -> (r: Option<Vec<u64>>)
    ensures
        match required(json_of(*v), k@, as_uint_list(max as nat)) {
            Some(ns) => r is Some && r->0@.len() == ns.len() && forall|i: int|
                0 <= i < ns.len() ==> (#[trigger] r->0@[i]) as nat == ns[i],
            None => r is None,
        },
{
    match get_member_of(v, k) {
        Some(m) => uint_list_value(m, max),
        None => None,
    }
}

/// Texts joined with commas.
pub open spec fn join(ms: Seq<Seq<char>>) -> Seq<char>
    decreases ms.len(),
{
    if ms.len() == 0 {
        Seq::empty()
    } else if ms.len() == 1 {
        ms[0]
    } else {
        join(ms.drop_last()) + seq![','] + ms.last()
    }
}

/// The text of a value that is not an array or an object.
pub open spec fn scalar_text(j: Json) -> Seq<char> {
    match j {
        Json::Null => "null"@,
        Json::Bool(b) => if b {
            "true"@
        } else {
            "false"@
        },
        Json::Number(t) => t,
        Json::Str(s) => quoted(s),
        _ => Seq::empty(),
    }
}

/// The text of a member's value: a scalar, an array of scalars, or an
/// object whose members are scalars.
pub open spec fn value_text(j: Json) -> Seq<char> {
    match j {
        Json::Array(items) => seq!['['] + join(items.map_values(|x: Json| scalar_text(x))) + seq![']'],
        Json::Object(es) => seq!['{'] + join(
            es.map_values(|e: (Seq<char>, Json)| seq!['"'] + e.0 + seq!['"', ':'] + scalar_text(e.1)),
        ) + seq!['}'],
        _ => scalar_text(j),
    }
}

/// The text of one object member whose key needs no escaping.
pub open spec fn member_text(k: Seq<char>, v: Json) -> Seq<char> {
    seq!['"'] + k + seq!['"', ':'] + value_text(v)
}

/// The texts of the members of an object.
pub open spec fn members_text(es: Seq<(Seq<char>, Json)>) -> Seq<Seq<char>> {
    es.map_values(|e: (Seq<char>, Json)| member_text(e.0, e.1))
}

/// The compact text of an object whose members are written by
/// `value_text`.
pub open spec fn object_text(es: Seq<(Seq<char>, Json)>) -> Seq<char> {
    seq!['{'] + join(members_text(es)) + seq!['}']
}

/// "true" or "false".
pub fn bool_text(b: bool) -> (r: &'static str)
    ensures
        r@ == scalar_text(Json::Bool(b)),
{
    if b {
        "true"
    } else {
        "false"
    }
}

/// Appends the member `key: value` to the members `es` already written
/// after an opening brace.
pub(crate) fn push_member(
    out: &mut String,
    es: Ghost<Seq<(Seq<char>, Json)>>,
    first: bool,
    key: &str,
    v: Ghost<Json>,
    value: &str,
)
    requires
        first == (es@.len() == 0),
        old(out)@ == seq!['{'] + join(members_text(es@)),
        value@ == value_text(v@),
    ensures
        final(out)@ == seq!['{'] + join(members_text(es@.push((key@, v@)))),
{
    if !first {
        out.append(",");
    }
    out.append("\"");
    out.append(key);
    out.append("\":");
    out.append(value);
    proof {
        reveal_strlit(",");
        reveal_strlit("\"");
        reveal_strlit("\":");
        let ms = members_text(es@);
        let ms2 = members_text(es@.push((key@, v@)));
        assert(ms2 =~= ms.push(member_text(key@, v@)));
        assert(ms2.drop_last() =~= ms);
        assert(final(out)@ =~= seq!['{'] + join(ms2));
    }
}

/// Closes an object whose members `es` have been written.
pub(crate) fn close_object(out: &mut String, es: Ghost<Seq<(Seq<char>, Json)>>)
    requires
        old(out)@ == seq!['{'] + join(members_text(es@)),
    ensures
        final(out)@ == object_text(es@),
{
    out.append("}");
    proof {
        reveal_strlit("}");
        assert(final(out)@ =~= object_text(es@));
    }
}

/// An opening brace: the start of an object with no members yet.
pub(crate) fn open_object() -> (r: String)
    ensures
        r@ == seq!['{'] + join(members_text(Seq::<(Seq<char>, Json)>::empty())),
{
    let mut out = String::new();
    out.append("{");
    proof {
        reveal_strlit("{");
        assert(members_text(Seq::<(Seq<char>, Json)>::empty()) =~= Seq::<Seq<char>>::empty());
        assert(out@ =~= seq!['{'] + join(members_text(Seq::<(Seq<char>, Json)>::empty())));
    }
    out
}

/// One member when the value is set, none otherwise.
pub open spec fn entry(k: Seq<char>, v: Option<Json>) -> Seq<(Seq<char>, Json)> {
    match v {
        Some(j) => seq![(k, j)],
        None => Seq::empty(),
    }
}

/// Appends the member `key: value` when the value is set, after the
/// members `es` already written; `first` tells whether none has been.
pub(crate) fn push_entry(
    out: &mut String,
    es: Ghost<Seq<(Seq<char>, Json)>>,
    first: &mut bool,
    key: &str,
    v: Ghost<Option<Json>>,
    text: Option<String>,
)
    requires
        *old(first) == (es@.len() == 0),
        old(out)@ == seq!['{'] + join(members_text(es@)),
        match v@ {
            Some(j) => text is Some && text->0@ == value_text(j),
            None => text is None,
        },
    ensures
        *final(first) == ((es@ + entry(key@, v@)).len() == 0),
        final(out)@ == seq!['{'] + join(members_text(es@ + entry(key@, v@))),
{
    match text {
        Some(t) => {
            let ghost j = v@->0;
            push_member(out, es, *first, key, Ghost(j), t.as_str());
            *first = false;
            assert(es@ + entry(key@, v@) =~= es@.push((key@, j)));
        },
        None => {
            assert(es@ + entry(key@, v@) =~= es@);
        },
    }
}

/// The JSON array of some strings.
pub open spec fn str_array(ss: Seq<Seq<char>>) -> Json {
    Json::Array(ss.map_values(|s: Seq<char>| Json::Str(s)))
}

/// The JSON array of some numbers.
pub open spec fn uint_array(ns: Seq<u8>) -> Json {
    Json::Array(ns.map_values(|n: u8| Json::Number(decimal(n as nat))))
}

/// The text of an array of strings.
pub fn str_array_text(ss: &Vec<String>) -> (r: String)
    ensures
        r@ == value_text(str_array(ss@.map_values(|s: String| s@))),
{
    let mut out = String::new();
    out.append("[");
    let ghost texts = ss@.map_values(|s: String| scalar_text(Json::Str(s@)));
    proof {
        reveal_strlit("[");
        assert(texts.take(0) =~= Seq::<Seq<char>>::empty());
        assert(out@ =~= seq!['['] + join(texts.take(0)));
    }
    let mut i: usize = 0;
    while i < ss.len()
        invariant
            0 <= i <= ss@.len(),
            texts == ss@.map_values(|s: String| scalar_text(Json::Str(s@))),
            out@ == seq!['['] + join(texts.take(i as int)),
        decreases ss@.len() - i,
    {
        if i > 0 {
            out.append(",");
        }
        let q = quote(ss[i].as_str());
        out.append(q.as_str());
        proof {
            reveal_strlit(",");
            assert(texts.take(i + 1).drop_last() =~= texts.take(i as int));
            assert(texts.take(i + 1).last() == quoted(ss@[i as int]@));
            assert(out@ =~= seq!['['] + join(texts.take(i + 1)));
        }
        i = i + 1;
    }
    out.append("]");
    proof {
        reveal_strlit("[");
        reveal_strlit("]");
        let items = ss@.map_values(|s: String| s@).map_values(|s: Seq<char>| Json::Str(s));
        assert(texts.take(ss@.len() as int) =~= items.map_values(|x: Json| scalar_text(x)));
        assert(out@ =~= value_text(str_array(ss@.map_values(|s: String| s@))));
    }
    out
}

/// The text of an array of numbers.
pub fn uint_array_text(ns: &Vec<u8>) -> (r: String)
    ensures
        r@ == value_text(uint_array(ns@)),
{
    let mut out = String::new();
    out.append("[");
    let ghost texts = ns@.map_values(|n: u8| scalar_text(Json::Number(decimal(n as nat))));
    proof {
        reveal_strlit("[");
        assert(texts.take(0) =~= Seq::<Seq<char>>::empty());
        assert(out@ =~= seq!['['] + join(texts.take(0)));
    }
    let mut i: usize = 0;
    while i < ns.len()
        invariant
            0 <= i <= ns@.len(),
            texts == ns@.map_values(|n: u8| scalar_text(Json::Number(decimal(n as nat)))),
            out@ == seq!['['] + join(texts.take(i as int)),
        decreases ns@.len() - i,
    {
        if i > 0 {
            out.append(",");
        }
        push_decimal(&mut out, ns[i] as u64);
        proof {
            reveal_strlit(",");
            assert(texts.take(i + 1).drop_last() =~= texts.take(i as int));
            assert(out@ =~= seq!['['] + join(texts.take(i + 1)));
        }
        i = i + 1;
    }
    out.append("]");
    proof {
        reveal_strlit("[");
        reveal_strlit("]");
        let items = ns@.map_values(|n: u8| Json::Number(decimal(n as nat)));
        assert(texts.take(ns@.len() as int) =~= items.map_values(|x: Json| scalar_text(x)));
        assert(out@ =~= value_text(uint_array(ns@)));
    }
    out
}

/// The member under `k` of members followed by more members: the first
/// part's, when it has one.
pub proof fn lemma_lookup_concat(a: Seq<(Seq<char>, Json)>, b: Seq<(Seq<char>, Json)>, k: Seq<char>)
    ensures
        lookup(a + b, k) == match lookup(a, k) {
            Some(x) => Some(x),
            None => lookup(b, k),
        },
    decreases a.len(),
{
    if a.len() == 0 {
        assert(a + b =~= b);
    } else {
        assert((a + b).drop_first() =~= a.drop_first() + b);
        assert((a + b)[0] == a[0]);
        lemma_lookup_concat(a.drop_first(), b, k);
    }
}

/// The member under `k` after one more optional member.
pub proof fn lemma_lookup_entry(es: Seq<(Seq<char>, Json)>, k2: Seq<char>, v: Option<Json>, k: Seq<char>)
    ensures
        lookup(es + entry(k2, v), k) == match lookup(es, k) {
            Some(x) => Some(x),
            None => if k2 == k {
                v
            } else {
                None
            },
        },
{
    lemma_lookup_concat(es, entry(k2, v), k);
    let e = entry(k2, v);
    match v {
        Some(j) => {
            assert(e.drop_first() =~= Seq::<(Seq<char>, Json)>::empty());
            assert(lookup(e.drop_first(), k) is None);
            assert(e[0] == (k2, j));
        },
        None => {
            assert(e.len() == 0);
        },
    }
}

} // verus!

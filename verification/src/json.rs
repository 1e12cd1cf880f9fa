//! JSON documents as the gateway reads and writes them.
//!
//! `serde_json` parses and prints the text; the library holds the parsed
//! document in a `JsonValue` of its own, whose view `Json` is what the
//! contracts speak of.
use serde_json::{Number, Value};
use vstd::prelude::*;

verus! {

broadcast use vstd::string::group_string_axioms;

/// The mathematical model of a JSON number, told apart as `serde_json`
/// tells them apart: a non-negative integer, a negative integer, or any
/// other number (kept as its printed form).
pub enum JsonNum {
    PosInt(u64),
    NegInt(i64),
    Float(Seq<char>),
}

/// The mathematical model of a JSON document. An object is the sequence of
/// its members: a parsed object lists them in key order, as `serde_json`
/// gives them; an object the library builds lists them as they were added.
pub enum Json {
    Null,
    Bool(bool),
    Number(JsonNum),
    Str(Seq<char>),
    Array(Seq<Json>),
    Object(Seq<(Seq<char>, Json)>),
}

/// `serde_json::Number`, which the library only carries.
#[verifier::external_type_specification]
#[verifier::external_body]
pub struct ExSerdeNumber(Number);

/// A number that `serde_json` holds as a float: its printed form, and the
/// parsed number itself, so that it is printed again exactly as it was
/// parsed. Only parsing makes one, so the printed form is always that of
/// the number; as the shortest form that reads back as the same float, it
/// tells the number apart from every other.
pub struct FloatNumber {
    text: String,
    number: Number,
}

impl View for FloatNumber {
    type V = Seq<char>;

    closed spec fn view(&self) -> Seq<char> {
        self.text@
    }
}

impl FloatNumber {
    /// The printed form of the number.
    pub fn text(&self) -> (r: &String)
        ensures
            r@ == self@,
    {
        &self.text
    }
}

/// A JSON number.
pub enum JsonNumber {
    PosInt(u64),
    NegInt(i64),
    Float(FloatNumber),
}

/// A JSON document.
pub enum JsonValue {
    Null,
    Bool(bool),
    Number(JsonNumber),
    String(String),
    Array(Vec<JsonValue>),
    Object(Vec<(String, JsonValue)>),
}

impl View for JsonNumber {
    type V = JsonNum;

    open spec fn view(&self) -> JsonNum {
        match self {
            JsonNumber::PosInt(u) => JsonNum::PosInt(*u),
            JsonNumber::NegInt(i) => JsonNum::NegInt(*i),
            JsonNumber::Float(t) => JsonNum::Float(t@),
        }
    }
}

/// The model of a document.
pub open spec fn json_view(v: JsonValue) -> Json
    decreases v,
{
    match v {
        JsonValue::Null => Json::Null,
        JsonValue::Bool(b) => Json::Bool(b),
        JsonValue::Number(n) => Json::Number(n@),
        JsonValue::String(s) => Json::Str(s@),
        JsonValue::Array(items) => Json::Array(
            Seq::new(
                items.len() as nat,
                |i: int|
                    if 0 <= i < items.len() {
                        proof {
                            vstd::std_specs::vec::axiom_vec_index_decreases(items, i);
                        }
                        json_view(items@[i])
                    } else {
                        Json::Null
                    },
            ),
        ),
        JsonValue::Object(entries) => Json::Object(
            Seq::new(
                entries.len() as nat,
                |i: int|
                    if 0 <= i < entries.len() {
                        proof {
                            vstd::std_specs::vec::axiom_vec_index_decreases(entries, i);
                        }
                        (entries@[i].0@, json_view(entries@[i].1))
                    } else {
                        (Seq::empty(), Json::Null)
                    },
            ),
        ),
    }
}

impl View for JsonValue {
    type V = Json;

    open spec fn view(&self) -> Json {
        json_view(*self)
    }
}

/// The models of a sequence of documents.
pub open spec fn views(items: Seq<JsonValue>) -> Seq<Json> {
    Seq::new(items.len(), |i: int| json_view(items[i]))
}

/// The models of the members of an object.
pub open spec fn entry_views(entries: Seq<(String, JsonValue)>) -> Seq<(Seq<char>, Json)> {
    Seq::new(entries.len(), |i: int| (entries[i].0@, json_view(entries[i].1)))
}

pub proof fn lemma_array_view(items: Vec<JsonValue>)
    ensures
        json_view(JsonValue::Array(items)) == Json::Array(views(items@)),
{
    let a = json_view(JsonValue::Array(items))->Array_0;
    assert forall|i: int| 0 <= i < items.len() implies a[i] == views(items@)[i] by {}
    assert(a =~= views(items@));
}

pub proof fn lemma_object_view(entries: Vec<(String, JsonValue)>)
    ensures
        json_view(JsonValue::Object(entries)) == Json::Object(entry_views(entries@)),
{
    let a = json_view(JsonValue::Object(entries))->Object_0;
    assert forall|i: int| 0 <= i < entries.len() implies a[i] == entry_views(entries@)[i] by {}
    assert(a =~= entry_views(entries@));
}

/// The value of the first member named `key`, as `serde_json::Map::get`
/// finds it (a parsed object names each member once).
pub open spec fn lookup(entries: Seq<(Seq<char>, Json)>, key: Seq<char>) -> Option<Json>
    decreases entries.len(),
{
    if entries.len() == 0 {
        None
    } else if entries[0].0 == key {
        Some(entries[0].1)
    } else {
        lookup(entries.drop_first(), key)
    }
}

/// `Value::get(key)`: the member `key` of an object; nothing for any other value.
pub open spec fn json_get(v: Json, key: Seq<char>) -> Option<Json> {
    match v {
        Json::Object(entries) => lookup(entries, key),
        _ => None,
    }
}

/// `as_str` of an optional value.
pub open spec fn str_of(o: Option<Json>) -> Option<Seq<char>> {
    match o {
        Some(Json::Str(s)) => Some(s),
        _ => None,
    }
}

/// `as_array` of an optional value.
pub open spec fn array_of(o: Option<Json>) -> Option<Seq<Json>> {
    match o {
        Some(Json::Array(items)) => Some(items),
        _ => None,
    }
}

/// `as_u64` of an optional value.
pub open spec fn u64_of(o: Option<Json>) -> Option<u64> {
    match o {
        Some(Json::Number(JsonNum::PosInt(n))) => Some(n),
        _ => None,
    }
}

/// `as_object().is_some()` of an optional value.
pub open spec fn is_object_of(o: Option<Json>) -> bool {
    o matches Some(Json::Object(_))
}

/// A string member, or the empty string (`.and_then(as_str).unwrap_or("")`).
pub open spec fn str_or_empty(o: Option<Json>) -> Seq<char> {
    match str_of(o) {
        Some(s) => s,
        None => Seq::empty(),
    }
}

/// A non-negative integer member, or 0 (`.and_then(as_u64).unwrap_or(0)`).
pub open spec fn u64_or_zero(o: Option<Json>) -> u64 {
    match u64_of(o) {
        Some(n) => n,
        None => 0,
    }
}

/// The model of an optional reference to a document.
pub open spec fn opt_view(o: Option<&JsonValue>) -> Option<Json> {
    match o {
        Some(v) => Some(json_view(*v)),
        None => None,
    }
}

/// What `serde_json::from_str::<Value>` gives for a text: the document, or
/// nothing when the text is not JSON.
pub uninterp spec fn json_from_text(text: Seq<char>) -> Option<Json>;

/// What `serde_json::from_slice::<Value>` gives for a sequence of bytes.
pub uninterp spec fn json_from_bytes(bytes: Seq<u8>) -> Option<Json>;

/// The text that `serde_json::to_string` prints for a document.
pub uninterp spec fn json_to_text(v: Json) -> Seq<char>;

/// The bytes that `serde_json::to_vec` prints for a document, if it prints any.
pub uninterp spec fn json_to_bytes(v: Json) -> Option<Seq<u8>>;

/// The document that `serde_json` parses from `text`.
///
/// Calls `serde_json::from_str::<serde_json::Value>` and carries the result
/// over into a `JsonValue`; trusted to give, for each text, the document
/// that `json_from_text` names.
#[verifier::external_body]
pub fn parse_json(text: &str) -> (r: Option<JsonValue>)
    ensures
        match r {
            Some(v) => json_from_text(text@) == Some(v@),
            None => json_from_text(text@) is None,
        },
{
    serde_json::from_str::<serde_json::Value>(text).ok().map(value_from_serde)
}

/// The document that `serde_json` parses from `bytes`.
///
/// Calls `serde_json::from_slice::<serde_json::Value>`; trusted to give the
/// document that `json_from_bytes` names.
#[verifier::external_body]
pub fn parse_json_bytes(bytes: &[u8]) -> (r: Option<JsonValue>)
    ensures
        match r {
            Some(v) => json_from_bytes(bytes@) == Some(v@),
            None => json_from_bytes(bytes@) is None,
        },
{
    serde_json::from_slice::<serde_json::Value>(bytes).ok().map(value_from_serde)
}

/// The JSON text of a document.
///
/// Calls `serde_json::to_string` (an empty string should it fail); trusted to
/// give the text that `json_to_text` names.
#[verifier::external_body]
pub fn to_json_string(v: &JsonValue) -> (s: String)
    ensures
        s@ == json_to_text(v@),
{
    serde_json::to_string(&value_to_serde(v)).unwrap_or_default()
}

/// The JSON text of a document, as bytes.
///
/// Calls `serde_json::to_vec`; trusted to give the bytes that `json_to_bytes`
/// names, and nothing when the call fails.
#[verifier::external_body]
pub fn to_json_bytes(v: &JsonValue) -> (r: Option<Vec<u8>>)
    ensures
        match r {
            Some(b) => json_to_bytes(v@) == Some(b@),
            None => json_to_bytes(v@) is None,
        },
{
    serde_json::to_vec(&value_to_serde(v)).ok()
}

/// `serde_json::Value`, which the library only hands to `serde_json` and
/// carries over into a `JsonValue`.
#[verifier::external_type_specification]
#[verifier::external_body]
pub struct ExSerdeValue(Value);

/// Carries a `serde_json::Value` over into a `JsonValue`, variant for
/// variant; a number keeps its `u64` or `i64` value, or else is kept as it
/// is, with its printed form.
#[verifier::external_body]
fn value_from_serde(v: Value) -> JsonValue {
    match v {
        Value::Null => JsonValue::Null,
        Value::Bool(b) => JsonValue::Bool(b),
        Value::Number(n) => JsonValue::Number(match (n.as_u64(), n.as_i64()) {
            (Some(u), _) => JsonNumber::PosInt(u),
            (None, Some(i)) => JsonNumber::NegInt(i),
            (None, None) => JsonNumber::Float(FloatNumber { text: n.to_string(), number: n }),
        }),
        Value::String(s) => JsonValue::String(s),
        Value::Array(items) => JsonValue::Array(items.into_iter().map(value_from_serde).collect()),
        Value::Object(map) => JsonValue::Object(map.into_iter().map(|(k, x)| (k, value_from_serde(x))).collect()),
    }
}

/// Carries a `JsonValue` back into a `Value`, variant for
/// variant; a number printed as a float is read back from its printed form.
#[verifier::external_body]
fn value_to_serde(v: &JsonValue) -> Value {
    match v {
        JsonValue::Null => Value::Null,
        JsonValue::Bool(b) => Value::Bool(*b),
        JsonValue::Number(JsonNumber::PosInt(u)) => Value::from(*u),
        JsonValue::Number(JsonNumber::NegInt(i)) => Value::from(*i),
        JsonValue::Number(JsonNumber::Float(f)) => Value::Number(f.number.clone()),
        JsonValue::String(s) => Value::String(s.clone()),
        JsonValue::Array(items) => Value::Array(items.iter().map(value_to_serde).collect()),
        JsonValue::Object(entries) => Value::Object(entries.iter().map(|(k, x)| (k.clone(), value_to_serde(x))).collect()),
    }
}

impl JsonValue {
    /// `Value::get`: the member `key` of an object.
    pub fn get(&self, key: &str) -> (r: Option<&JsonValue>)
        ensures
            opt_view(r) == json_get(self@, key@),
    {
        match self {
            JsonValue::Object(entries) => {
                proof {
                    lemma_object_view(*entries);
                }
                let k = key.to_string();
                let ghost ev = entry_views(entries@);
                assert(ev.skip(0) =~= ev);
                let mut i: usize = 0;
                while i < entries.len()
                    invariant
                        0 <= i <= entries@.len(),
                        k@ == key@,
                        ev == entry_views(entries@),
                        self@ == Json::Object(ev),
                        lookup(ev, key@) == lookup(ev.skip(i as int), key@),
                    decreases entries@.len() - i,
                {
                    let ghost rest = ev.skip(i as int);
                    assert(rest[0] == (entries@[i as int].0@, json_view(entries@[i as int].1)));
                    if entries[i].0 == k {
                        return Some(&entries[i].1);
                    }
                    assert(rest.drop_first() =~= ev.skip(i + 1));
                    i = i + 1;
                }
                None
            },
            _ => None,
        }
    }

    /// `Value::as_str`.
    pub fn as_str(&self) -> (r: Option<&String>)
        ensures
            match r {
                Some(s) => self@ == Json::Str(s@),
                None => !(self@ is Str),
            },
    {
        match self {
            JsonValue::String(s) => Some(s),
            _ => None,
        }
    }

    /// `Value::as_array`.
    pub fn as_array(&self) -> (r: Option<&Vec<JsonValue>>)
        ensures
            match r {
                Some(items) => self@ == Json::Array(views(items@)),
                None => !(self@ is Array),
            },
    {
        match self {
            JsonValue::Array(items) => {
                proof {
                    lemma_array_view(*items);
                }
                Some(items)
            },
            _ => None,
        }
    }

    /// `Value::as_u64`.
    pub fn as_u64(&self) -> (r: Option<u64>)
        ensures
            r == u64_of(Some(self@)),
    {
        match self {
            JsonValue::Number(JsonNumber::PosInt(n)) => Some(*n),
            _ => None,
        }
    }

    /// `Value::is_object`.
    pub fn is_object(&self) -> (r: bool)
        ensures
            r == is_object_of(Some(self@)),
    {
        match self {
            JsonValue::Object(_) => true,
            _ => false,
        }
    }
}

/// The string member `key` of `v`, if `v` is an object holding one.
pub fn get_str<'a>(v: &'a JsonValue, key: &str) -> (r: Option<&'a String>)
    ensures
        match r {
            Some(s) => str_of(json_get(v@, key@)) == Some(s@),
            None => str_of(json_get(v@, key@)) is None,
        },
{
    match v.get(key) {
        Some(x) => x.as_str(),
        None => None,
    }
}

/// The array member `key` of `v`, if `v` is an object holding one.
pub fn get_array<'a>(v: &'a JsonValue, key: &str) -> (r: Option<&'a Vec<JsonValue>>)
    ensures
        match r {
            Some(items) => array_of(json_get(v@, key@)) == Some(views(items@)),
            None => array_of(json_get(v@, key@)) is None,
        },
{
    match v.get(key) {
        Some(x) => x.as_array(),
        None => None,
    }
}

/// The string member `key` of `v`, or the empty string.
pub fn get_str_or_empty(v: &JsonValue, key: &str) -> (r: String)
    ensures
        r@ == str_or_empty(json_get(v@, key@)),
{
    match get_str(v, key) {
        Some(s) => s.clone(),
        None => String::new(),
    }
}

/// The non-negative integer member `key` of `v`, or 0.
pub fn get_u64_or_zero(v: &JsonValue, key: &str) -> (r: u64)
    ensures
        r == u64_or_zero(json_get(v@, key@)),
{
    match v.get(key) {
        Some(x) => match x.as_u64() {
            Some(n) => n,
            None => 0,
        },
        None => 0,
    }
}

/// The object member `key` of `v`, if `v` is an object holding one.
pub fn get_object<'a>(v: &'a JsonValue, key: &str) -> (r: Option<&'a JsonValue>)
    ensures
        match r {
            Some(x) => json_get(v@, key@) == Some(x@) && x@ is Object,
            None => !is_object_of(json_get(v@, key@)),
        },
{
    match v.get(key) {
        Some(x) => if x.is_object() {
            Some(x)
        } else {
            None
        },
        None => None,
    }
}

} // verus!

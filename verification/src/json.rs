//! JSON documents, read and written with `serde_json`.
//!
//! A `serde_json::Value` is opaque here. What it holds is the [`Json`] that
//! [`json_of`] gives; each function below says what one `serde_json` call does to it.

use vstd::prelude::*;
use vstd::utf8::encode_utf8;

verus! {

/// What a JSON value holds. A number is `Int` when it is written as an integer that
/// fits `i64` or `u64`, and otherwise the bit pattern of its `f64`.
pub enum Json {
    Null,
    Bool(bool),
    Int(int),
    Float(u64),
    Text(Seq<char>),
    List(Seq<Json>),
    Object(Map<Seq<char>, Json>),
}

/// Whether `j` nests lists and objects at most `depth` deep and holds no `Float`.
pub open spec fn plain_within(j: Json, depth: nat) -> bool
    decreases depth,
{
    match j {
        Json::Float(_) => false,
        Json::List(items) => depth > 0 && forall|i: int|
            0 <= i < items.len() ==> plain_within(#[trigger] items[i], (depth - 1) as nat),
        Json::Object(fields) => depth > 0 && forall|k: Seq<char>|
            fields.contains_key(k) ==> plain_within(#[trigger] fields[k], (depth - 1) as nat),
        _ => true,
    }
}

/// How deep `serde_json` follows nested lists and objects when it reads.
pub open spec fn depth_limit() -> nat {
    127
}

/// The field `key` of an object; `Null` where there is none.
pub open spec fn member_of(j: Json, key: Seq<char>) -> Json {
    match j {
        Json::Object(fields) => if fields.contains_key(key) {
            fields[key]
        } else {
            Json::Null
        },
        _ => Json::Null,
    }
}

/// The item at `i` of a list; `Null` where there is none.
pub open spec fn item_of(j: Json, i: int) -> Json {
    match j {
        Json::List(items) => if 0 <= i < items.len() {
            items[i]
        } else {
            Json::Null
        },
        _ => Json::Null,
    }
}

pub open spec fn bool_of(j: Json) -> Option<bool> {
    match j {
        Json::Bool(b) => Some(b),
        _ => None,
    }
}

pub open spec fn int_of(j: Json) -> Option<i64> {
    match j {
        Json::Int(n) => if i64::MIN <= n <= i64::MAX {
            Some(n as i64)
        } else {
            None
        },
        _ => None,
    }
}

pub open spec fn text_of(j: Json) -> Option<Seq<char>> {
    match j {
        Json::Text(t) => Some(t),
        _ => None,
    }
}

/// The object with the given fields.
pub open spec fn object_of(fields: Seq<(Seq<char>, Json)>) -> Map<Seq<char>, Json>
    decreases fields.len(),
{
    if fields.len() == 0 {
        Map::empty()
    } else {
        object_of(fields.drop_last()).insert(fields.last().0, fields.last().1)
    }
}

/// What the fields handed to [`object`] hold.
pub open spec fn fields_view(fields: Seq<(String, serde_json::Value)>) -> Seq<(Seq<char>, Json)> {
    fields.map_values(|f: (String, serde_json::Value)| (f.0@, json_of(f.1)))
}

#[verifier::external_type_specification]
#[verifier::external_body]
pub struct ExValue(serde_json::Value);

#[verifier::external_type_specification]
#[verifier::external_body]
pub struct ExError(serde_json::Error);

/// What a `serde_json::Value` holds.
pub uninterp spec fn json_of(v: serde_json::Value) -> Json;

/// What `serde_json::from_slice::<serde_json::Value>` makes of the bytes: the value,
/// or the text of its error.
pub uninterp spec fn json_document(bytes: Seq<u8>) -> Result<Json, Seq<char>>;

/// The text that `serde_json::to_string_pretty` gives for a value.
pub uninterp spec fn json_pretty(j: Json) -> Seq<char>;

/// Reading `text` gives `j`, unless `j` is deeper than the reader goes or holds a
/// fraction (those are read with rounding).
pub open spec fn reads_back(text: Seq<char>, j: Json) -> bool {
    plain_within(j, depth_limit()) ==> json_document(encode_utf8(text)) == Ok::<Json, Seq<char>>(j)
}

/// `serde_json::from_slice`: reads a document. The contract names the outcome, which
/// depends on the bytes alone; the error is handed on as its text.
#[verifier::external_body]
pub(crate) fn parse(bytes: &[u8]) -> (r: Result<serde_json::Value, String>)
    ensures
        match r {
            Ok(v) => json_document(bytes@) == Ok::<Json, Seq<char>>(json_of(v)),
            Err(e) => json_document(bytes@) == Err::<Json, Seq<char>>(e@),
        },
{
    serde_json::from_slice(bytes).map_err(|e| e.to_string())
}

/// `serde_json::to_string_pretty`: writes a value over indented lines. The contract names
/// the text, and claims that writing a value never fails and that [`parse`] reads the text
/// back as [`reads_back`] says.
#[verifier::external_body]
pub(crate) fn write_pretty(v: &serde_json::Value) -> (r: Result<String, serde_json::Error>)
    ensures
        match r {
            Ok(t) => t@ == json_pretty(json_of(*v)) && reads_back(t@, json_of(*v)),
            Err(_) => false,
        },
{
    serde_json::to_string_pretty(v)
}

/// Indexing a `serde_json::Value` by a key: the field, or null where the value is no
/// object or has no such field.
#[verifier::external_body]
pub(crate) fn member<'a>(v: &'a serde_json::Value, key: &str) -> (r: &'a serde_json::Value)
    ensures
        json_of(*r) == member_of(json_of(*v), key@),
{
    &v[key]
}

/// Indexing a `serde_json::Value` by a position: the item, or null where the value is
/// no list or is shorter.
#[verifier::external_body]
pub(crate) fn item(v: &serde_json::Value, i: usize) -> (r: &serde_json::Value)
    ensures
        json_of(*r) == item_of(json_of(*v), i as int),
{
    &v[i]
}

/// `serde_json::Value::as_bool`: the truth value, where the value is one.
#[verifier::external_body]
pub(crate) fn as_bool(v: &serde_json::Value) -> (r: Option<bool>)
    ensures
        r == bool_of(json_of(*v)),
{
    v.as_bool()
}

/// `serde_json::Value::as_i64`: the number, where the value is an integer in range.
#[verifier::external_body]
pub(crate) fn as_i64(v: &serde_json::Value) -> (r: Option<i64>)
    ensures
        r == int_of(json_of(*v)),
{
    v.as_i64()
}

/// `serde_json::Value::as_str`: the text, where the value is one.
#[verifier::external_body]
pub(crate) fn as_text(v: &serde_json::Value) -> (r: Option<&str>)
    ensures
        match r {
            Some(t) => text_of(json_of(*v)) == Some(t@),
            None => text_of(json_of(*v)) is None,
        },
{
    v.as_str()
}

/// `serde_json::Value::Bool`: a truth value.
#[verifier::external_body]
pub(crate) fn boolean(b: bool) -> (r: serde_json::Value)
    ensures
        json_of(r) == Json::Bool(b),
{
    serde_json::Value::Bool(b)
}

/// `serde_json::Value::from` for an `i64`: an integer.
#[verifier::external_body]
pub(crate) fn integer(n: i64) -> (r: serde_json::Value)
    ensures
        json_of(r) == Json::Int(n as int),
{
    serde_json::Value::from(n)
}

/// `serde_json::Value::String`: a text.
#[verifier::external_body]
pub(crate) fn string(s: String) -> (r: serde_json::Value)
    ensures
        json_of(r) == Json::Text(s@),
{
    serde_json::Value::String(s)
}

/// `serde_json::Value::Array`: a list of the given items, in their order.
#[verifier::external_body]
pub(crate) fn list(items: Vec<serde_json::Value>) -> (r: serde_json::Value)
    ensures
        json_of(r) == Json::List(items@.map_values(|v: serde_json::Value| json_of(v))),
{
    serde_json::Value::Array(items)
}

/// `serde_json::Value::Object` over a `serde_json::Map` collected from the fields, which are
/// to have different keys.
#[verifier::external_body]
pub(crate) fn object(fields: Vec<(String, serde_json::Value)>) -> (r: serde_json::Value)
    requires
        forall|i: int, j: int| 0 <= i < j < fields@.len() ==> fields@[i].0@ != fields@[j].0@,
    ensures
        json_of(r) == Json::Object(object_of(fields_view(fields@))),
{
    serde_json::Value::Object(fields.into_iter().collect())
}

} // verus!

//! JSON documents through serde_json.
//!
//! serde_json reads and writes the text; a `serde_json::Value` is opaque here,
//! and the contracts below describe it by `json_model`, a `JsonValue`.
use vstd::prelude::*;

verus! {

#[verifier::external_type_specification]
#[verifier::external_body]
pub struct ExValue(serde_json::Value);

/// A JSON document.
pub enum JsonValue {
    Null,
    Bool(bool),
    /// A number without fraction or exponent that fits in `i64` or `u64`
    /// (serde_json keeps these exactly).
    Int(int),
    /// Any other number; its value is not described here.
    Float,
    Str(Seq<char>),
    Array(Seq<JsonValue>),
    Object(Map<Seq<char>, JsonValue>),
}

/// The document that a `serde_json::Value` holds.
pub uninterp spec fn json_model(v: serde_json::Value) -> JsonValue;

/// The document that serde_json reads from a whole text, or `None` where the
/// text is not one JSON document.
pub uninterp spec fn json_read(text: Seq<char>) -> Option<JsonValue>;

/// The member of an object under `key`; `None` for a missing key or a document
/// that is no object.
pub open spec fn member_of(doc: JsonValue, key: Seq<char>) -> Option<JsonValue> {
    match doc {
        JsonValue::Object(m) => if m.contains_key(key) {
            Some(m[key])
        } else {
            None
        },
        _ => None,
    }
}

pub open spec fn model_of(v: Option<&serde_json::Value>) -> Option<JsonValue> {
    match v {
        Some(x) => Some(json_model(*x)),
        None => None,
    }
}

pub open spec fn owned_model_of(v: Option<serde_json::Value>) -> Option<JsonValue> {
    match v {
        Some(x) => Some(json_model(x)),
        None => None,
    }
}

/// No floating-point number anywhere, and arrays and objects nested at most
/// `depth` deep.
pub open spec fn plain_within(v: JsonValue, depth: nat) -> bool
    decreases depth,
{
    match v {
        JsonValue::Float => false,
        JsonValue::Array(items) => depth > 0 && forall|i: int|
            0 <= i < items.len() ==> plain_within(#[trigger] items[i], (depth - 1) as nat),
        JsonValue::Object(m) => depth > 0 && forall|k: Seq<char>|
            m.contains_key(k) ==> plain_within(#[trigger] m[k], (depth - 1) as nat),
        _ => true,
    }
}

/// The object that a list of members with distinct keys makes.
pub open spec fn members_map(members: Seq<(String, serde_json::Value)>) -> Map<
    Seq<char>,
    JsonValue,
>
    decreases members.len(),
{
    if members.len() == 0 {
        Map::empty()
    } else {
        members_map(members.drop_last()).insert(
            members.last().0@,
            json_model(members.last().1),
        )
    }
}

pub open spec fn distinct_keys(members: Seq<(String, serde_json::Value)>) -> bool {
    forall|i: int, j: int|
        0 <= i < j < members.len() ==> (#[trigger] members[i]).0@ != (#[trigger] members[j]).0@
}

/// Relies on serde_json::from_str into a `Value`: reads a whole text as one
/// JSON document, and fails where it is not one.
#[verifier::external_body]
pub(crate) fn read_json(text: &str) -> (r: Option<serde_json::Value>)
    ensures
        owned_model_of(r) == json_read(text@),
{
    serde_json::from_str::<serde_json::Value>(text).ok()
}

/// The compact JSON text that serde_json writes for a document.
pub uninterp spec fn json_text(doc: JsonValue) -> Seq<char>;

/// A string that JSON writes without escapes: no `"`, no `\` and no control
/// character below U+0020.
pub open spec fn escape_free(s: Seq<char>) -> bool {
    forall|i: int| 0 <= i < s.len() ==> #[trigger] s[i] != '"' && s[i] != '\\' && s[i] as int >= 32
}

/// `s` occurs in `t` as a contiguous piece.
pub open spec fn contains_text(t: Seq<char>, s: Seq<char>) -> bool {
    exists|i: int| 0 <= i && i + s.len() <= t.len() && #[trigger] t.subrange(i, i + s.len()) == s
}

/// Some member of the object `doc` is the JSON string `s`.
pub open spec fn has_string_member(doc: JsonValue, s: Seq<char>) -> bool {
    exists|k: Seq<char>| #[trigger] member_of(doc, k) == Some(JsonValue::Str(s))
}

/// Relies on the `Display` of `serde_json::Value`: compact JSON text, which
/// serde_json reads back as the same document, and in which a string member
/// without characters to escape stands verbatim between quotes (for a
/// document without floating-point numbers, so that the text depends on the
/// document alone, and nested well within the reader's depth limit).
#[verifier::external_body]
pub(crate) fn write_json(v: &serde_json::Value) -> (r: String)
    requires
        plain_within(json_model(*v), 8),
    ensures
        r@ == json_text(json_model(*v)),
        json_read(r@) == Some(json_model(*v)),
        forall|s: Seq<char>|
            #[trigger] has_string_member(json_model(*v), s) && escape_free(s) ==> contains_text(
                r@,
                s,
            ),
{
    v.to_string()
}

/// Relies on `serde_json::Value::get` with a string key: the member of an
/// object under that key, `None` for any other document.
#[verifier::external_body]
pub(crate) fn member<'a>(v: &'a serde_json::Value, key: &str) -> (r: Option<&'a serde_json::Value>)
    ensures
        model_of(r) == member_of(json_model(*v), key@),
{
    v.get(key)
}

/// Relies on `serde_json::Value::is_object`: true of an object only.
pub assume_specification[ serde_json::Value::is_object ](v: &serde_json::Value) -> (r: bool)
    ensures
        r == json_model(*v) is Object,
;

/// Relies on `serde_json::Value::is_null`: true of `null` only.
pub assume_specification[ serde_json::Value::is_null ](v: &serde_json::Value) -> (r: bool)
    ensures
        r == json_model(*v) is Null,
;

/// Relies on `serde_json::Value::as_str`: the text of a JSON string, `None` for
/// any other document.
pub assume_specification<'a>[ serde_json::Value::as_str ](v: &'a serde_json::Value) -> (r: Option<
    &'a str,
>)
    ensures
        match json_model(*v) {
            JsonValue::Str(s) => r is Some && r->Some_0@ == s,
            _ => r is None,
        },
;

/// Relies on `serde_json::Value::as_u64`: a number kept as a non-negative
/// integer, `None` for any other document.
pub assume_specification[ serde_json::Value::as_u64 ](v: &serde_json::Value) -> (r: Option<u64>)
    ensures
        match json_model(*v) {
            JsonValue::Int(i) => if 0 <= i <= u64::MAX {
                r == Some(i as u64)
            } else {
                r is None
            },
            _ => r is None,
        },
;

/// Relies on `serde_json::Value::String`: a JSON string.
#[verifier::external_body]
pub(crate) fn json_string(s: String) -> (r: serde_json::Value)
    ensures
        json_model(r) == JsonValue::Str(s@),
{
    serde_json::Value::String(s)
}

/// Relies on serde_json's `From<u64>` for `Value`: an integral number.
#[verifier::external_body]
pub(crate) fn json_number(n: u64) -> (r: serde_json::Value)
    ensures
        json_model(r) == JsonValue::Int(n as int),
{
    serde_json::Value::from(n)
}

/// Relies on `serde_json::Value::Object` of a `serde_json::Map` collected from
/// its members: an object with exactly these members.
#[verifier::external_body]
pub(crate) fn json_object(members: Vec<(String, serde_json::Value)>) -> (r: serde_json::Value)
    requires
        distinct_keys(members@),
    ensures
        json_model(r) == JsonValue::Object(members_map(members@)),
{
    serde_json::Value::Object(members.into_iter().collect())
}

} // verus!

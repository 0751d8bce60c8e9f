//! The JSON that contact records keep their list fields (phones, addresses,
//! profiles, links, relations) in.

use vstd::prelude::*;

verus! {

#[verifier::external_type_specification]
#[verifier::external_body]
pub struct ExJsonValue(serde_json::Value);

/// The items of the JSON array written in `s`, when `s` is one.
pub uninterp spec fn json_array_items(s: Seq<char>) -> Option<Seq<serde_json::Value>>;

/// The JSON text `serde_json::to_string` writes for an array of values.
pub uninterp spec fn json_array_text(v: Seq<serde_json::Value>) -> Option<Seq<char>>;

/// The `number` and `type` string members of the items of the JSON array
/// written in `s`, when `s` is one.
pub uninterp spec fn json_phone_members(s: Seq<char>) -> Option<
    Seq<(Option<Seq<char>>, Option<Seq<char>>)>,
>;

/// Reads a JSON array with `serde_json::from_str::<Vec<Value>>`; none when
/// the text is not a JSON array. What the items hold is not restated.
#[verifier::external_body]
pub(crate) fn parse_json_array(s: &str) -> (r: Option<Vec<serde_json::Value>>)
    ensures
        match r {
            Some(v) => json_array_items(s@) == Some(v@),
            None => json_array_items(s@) is None,
        },
{
    serde_json::from_str::<Vec<serde_json::Value>>(s).ok()
}

/// Writes an array of JSON values with `serde_json::to_string`; none when
/// serialization fails. The text is not restated.
#[verifier::external_body]
pub(crate) fn json_array_to_text(v: &Vec<serde_json::Value>) -> (r: Option<String>)
    ensures
        match r {
            Some(t) => json_array_text(v@) == Some(t@),
            None => json_array_text(v@) is None,
        },
{
    serde_json::to_string(v).ok()
}

/// Reads a JSON array of phone objects with `serde_json::from_str` and
/// takes the string members `number` and `type` of each item (none where a
/// member is missing or not a string); none when the text is not an array.
#[verifier::external_body]
pub(crate) fn parse_phone_members(s: &str) -> (r: Option<Vec<(Option<String>, Option<String>)>>)
    ensures
        match r {
            Some(v) => json_phone_members(s@) == Some(
                v@.map_values(
                    |p: (Option<String>, Option<String>)|
                        (crate::query::opt_view(p.0), crate::query::opt_view(p.1)),
                ),
            ),
            None => json_phone_members(s@) is None,
        },
{
    let items = serde_json::from_str::<Vec<serde_json::Value>>(s).ok()?;
    Some(
        items.iter().map(
            |p| (
                p.get("number").and_then(|v| v.as_str()).map(String::from),
                p.get("type").and_then(|v| v.as_str()).map(String::from),
            ),
        ).collect(),
    )
}

/// The items of a JSON array text, none when it is not one.
pub open spec fn items_or_empty(s: Seq<char>) -> Seq<serde_json::Value> {
    match json_array_items(s) {
        Some(v) => v,
        None => Seq::empty(),
    }
}

/// The JSON text of an array, `[]` when it cannot be written.
pub open spec fn text_or_empty_array(v: Seq<serde_json::Value>) -> Seq<char> {
    match json_array_text(v) {
        Some(t) => t,
        None => "[]"@,
    }
}

/// Writes an array of values, `[]` when serialization fails.
pub fn array_text(v: &Vec<serde_json::Value>) -> (r: String)
    ensures
        r@ == text_or_empty_array(v@),
{
    match json_array_to_text(v) {
        Some(t) => t,
        None => crate::text::string_of(crate::text::chars_of("[]").as_slice()),
    }
}

/// The items of the first JSON array followed by those of the second; text
/// that is not a JSON array counts as an empty one.
pub open spec fn merge_json_arrays_spec(a: Seq<char>, b: Seq<char>) -> Seq<char> {
    text_or_empty_array(items_or_empty(a) + items_or_empty(b))
}

/// Concatenates two JSON arrays.
pub fn merge_json_arrays(a: &str, b: &str) -> (r: String)
    ensures
        r@ == merge_json_arrays_spec(a@, b@),
{
    let mut arr_a = match parse_json_array(a) {
        Some(v) => v,
        None => Vec::new(),
    };
    let mut arr_b = match parse_json_array(b) {
        Some(v) => v,
        None => Vec::new(),
    };
    arr_a.append(&mut arr_b);
    array_text(&arr_a)
}

/// The string member `key` of the JSON object written in `text`: none when
/// the text is not JSON, not an object, lacks the member or it is not a
/// string.
pub uninterp spec fn json_str_member(text: Seq<char>, key: Seq<char>) -> Option<Seq<char>>;

/// The integer member `key` of the JSON object written in `text`, as
/// `Value::as_i64` reads it; none otherwise.
pub uninterp spec fn json_i64_member(text: Seq<char>, key: Seq<char>) -> Option<i64>;

/// The compact JSON text `serde_json` writes back for the value read from
/// `text`, or "null" when `text` is not JSON.
pub uninterp spec fn json_echo(text: Seq<char>) -> Seq<char>;

/// Reads `text` with `serde_json::from_str::<Value>` and takes
/// `get(key)` and `as_str`.
#[verifier::external_body]
pub(crate) fn str_member(text: &str, key: &str) -> (r: Option<String>)
    ensures
        crate::query::opt_view(r) == json_str_member(text@, key@),
{
    serde_json::from_str::<serde_json::Value>(text).ok()?.get(key)?.as_str().map(String::from)
}

/// Reads `text` with `serde_json::from_str::<Value>` and takes `get(key)`
/// and `as_i64`.
#[verifier::external_body]
pub(crate) fn i64_member(text: &str, key: &str) -> (r: Option<i64>)
    ensures
        r == json_i64_member(text@, key@),
{
    serde_json::from_str::<serde_json::Value>(text).ok()?.get(key)?.as_i64()
}

/// Reads `text` as a JSON value (`Value::Null` when it is not JSON) and
/// writes it back with its `Display` impl.
#[verifier::external_body]
pub(crate) fn echo_json(text: &str) -> (r: String)
    ensures
        r@ == json_echo(text@),
{
    serde_json::from_str::<serde_json::Value>(text).unwrap_or_default().to_string()
}

/// The JSON object `{"number": number, "type": kind}`.
pub uninterp spec fn json_phone_object(number: Seq<char>, kind: Seq<char>) -> serde_json::Value;

/// Builds the JSON object stored for a phone number.
#[verifier::external_body]
pub(crate) fn phone_object(number: &str, kind: &str) -> (r: serde_json::Value)
    ensures
        r == json_phone_object(number@, kind@),
{
    let mut m = serde_json::Map::new();
    m.insert("number".to_string(), serde_json::Value::String(number.to_string()));
    m.insert("type".to_string(), serde_json::Value::String(kind.to_string()));
    serde_json::Value::Object(m)
}

} // verus!

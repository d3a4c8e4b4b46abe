//! JSON, as `serde_json` reads and writes it.
use crate::text;
use vstd::prelude::*;

verus! {

/// What a JSON value holds.
pub enum Json {
    Null,
    Flag(bool),
    /// A whole number that is not negative and fits.
    Count(u64),
    /// Any other number, as it is written.
    Number(Seq<char>),
    Text(Seq<char>),
    List(Seq<Json>),
    /// The fields of an object, in order. None occurs twice.
    Object(Seq<(Seq<char>, Json)>),
}

/// A JSON value of `serde_json`.
#[verifier::external_type_specification]
#[verifier::external_body]
pub struct ExValue(serde_json::Value);

/// The error of `serde_json`.
#[verifier::external_type_specification]
#[verifier::external_body]
pub struct ExJsonError(serde_json::Error);

/// What a value of `serde_json` holds.
pub uninterp spec fn json_of(value: serde_json::Value) -> Json;

/// What `serde_json` reads in a text; none where the text is not JSON.
pub uninterp spec fn json_in(text: Seq<char>) -> Option<Json>;

/// The indented text that `serde_json` writes for a value.
pub uninterp spec fn json_pretty(value: Json) -> Seq<char>;

/// The text on one line that `serde_json` writes for a value.
pub uninterp spec fn json_line(value: Json) -> Seq<char>;

/// Why `serde_json` does not read a value as a text that may be missing.
pub uninterp spec fn text_error(value: Json) -> Seq<char>;

/// Why `serde_json` does not read a value as a count that may be missing.
pub uninterp spec fn count_error(value: Json) -> Seq<char>;

/// Why `serde_json` does not read a value as an object.
pub uninterp spec fn object_error(value: Json) -> Seq<char>;

/// What the fields of an object hold.
pub open spec fn fields(list: Seq<(String, serde_json::Value)>) -> Seq<(Seq<char>, Json)> {
    list.map_values(|f: (String, serde_json::Value)| (f.0@, json_of(f.1)))
}

/// What the items of a list hold.
pub open spec fn items(list: Seq<serde_json::Value>) -> Seq<Json> {
    list.map_values(|v: serde_json::Value| json_of(v))
}

/// Whether no field occurs twice.
pub open spec fn distinct(list: Seq<(Seq<char>, Json)>) -> bool {
    forall|i: int, j: int|
        0 <= i < j < list.len() ==> (#[trigger] list[i]).0 != (#[trigger] list[j]).0
}

/// Whether a value is nested at most `depth` deep, and holds no number but counts.
pub open spec fn plain(value: Json, depth: nat) -> bool
    decreases depth,
{
    match value {
        Json::Number(_) => false,
        Json::List(list) => depth > 0 && forall|i: int|
            0 <= i < list.len() ==> plain(#[trigger] list[i], (depth - 1) as nat),
        Json::Object(list) => depth > 0 && forall|i: int|
            0 <= i < list.len() ==> plain((#[trigger] list[i]).1, (depth - 1) as nat),
        _ => true,
    }
}

/// The text that a value stands for where a text may be missing: none for `null`.
pub open spec fn text_in(value: Json) -> Option<Option<Seq<char>>> {
    match value {
        Json::Null => Some(None),
        Json::Text(text) => Some(Some(text)),
        _ => None,
    }
}

/// The count that a value stands for where a count may be missing: none for `null`.
pub open spec fn count_in(value: Json) -> Option<Option<u64>> {
    match value {
        Json::Null => Some(None),
        Json::Count(n) => Some(Some(n)),
        _ => None,
    }
}

/// Reads a text by `serde_json::from_str` as a value. Both outcomes are named.
#[verifier::external_body]
pub(crate) fn read_value(text: &str) -> (r: Result<serde_json::Value, serde_json::Error>)
    ensures
        r matches Ok(value) ==> json_in(text@) == Some(json_of(value)),
        r is Err ==> json_in(text@) is None,
{
    serde_json::from_str::<serde_json::Value>(text)
}

/// Takes an object apart, by `serde_json::from_value` as a `Map`: its fields in order, none of
/// which occurs twice. Another value is refused with a text that is named, and which ends in
/// `a map`.
#[verifier::external_body]
pub(crate) fn object_fields(value: &serde_json::Value) -> (r: Result<
    Vec<(String, serde_json::Value)>,
    String,
>)
    ensures
        r matches Ok(list) ==> json_of(*value) == Json::Object(fields(list@)) && distinct(
            fields(list@),
        ),
        r matches Err(why) ==> !(json_of(*value) is Object) && why@ == object_error(
            json_of(*value),
        ) && text::ends(why@, "a map"@),
{
    match serde_json::from_value::<serde_json::Map<String, serde_json::Value>>(value.clone()) {
        Ok(map) => Ok(map.into_iter().collect()),
        Err(error) => Err(error.to_string()),
    }
}

/// Takes a list apart, by its variant `Value::Array`. There are no items of another value.
#[verifier::external_body]
pub(crate) fn list_items(value: &serde_json::Value) -> (r: Option<Vec<serde_json::Value>>)
    ensures
        r matches Some(list) ==> json_of(*value) == Json::List(items(list@)),
        r is None ==> !(json_of(*value) is List),
{
    match value {
        serde_json::Value::Array(list) => Some(list.clone()),
        _ => None,
    }
}

/// Reads a text that may be missing by `serde_json::from_value`: a string, or `null`. Another
/// value is refused with a text that is named.
#[verifier::external_body]
pub(crate) fn text_field(value: &serde_json::Value) -> (r: Result<Option<String>, String>)
    ensures
        r matches Ok(text) ==> text_in(json_of(*value)) == Some(text.deep_view()),
        r matches Err(why) ==> text_in(json_of(*value)) is None && why@ == text_error(
            json_of(*value),
        ),
{
    match serde_json::from_value::<Option<String>>(value.clone()) {
        Ok(text) => Ok(text),
        Err(error) => Err(error.to_string()),
    }
}

/// Reads a count that may be missing by `serde_json::from_value`: a whole number that is not
/// negative and fits, or `null`. Another value is refused with a text that is named.
#[verifier::external_body]
pub(crate) fn count_field(value: &serde_json::Value) -> (r: Result<Option<u64>, String>)
    ensures
        r matches Ok(count) ==> count_in(json_of(*value)) == Some(count),
        r matches Err(why) ==> count_in(json_of(*value)) is None && why@ == count_error(
            json_of(*value),
        ),
{
    match serde_json::from_value::<Option<u64>>(value.clone()) {
        Ok(count) => Ok(count),
        Err(error) => Err(error.to_string()),
    }
}

/// A string, or `null` where the text is missing, by `Value::from`.
#[verifier::external_body]
pub(crate) fn text_value(text: Option<String>) -> (r: serde_json::Value)
    ensures
        json_of(r) == match text {
            Some(t) => Json::Text(t@),
            None => Json::Null,
        },
{
    serde_json::Value::from(text)
}

/// A number, or `null` where the count is missing, by `Value::from`.
#[verifier::external_body]
pub(crate) fn count_value(count: Option<u64>) -> (r: serde_json::Value)
    ensures
        json_of(r) == match count {
            Some(n) => Json::Count(n),
            None => Json::Null,
        },
{
    serde_json::Value::from(count)
}

/// `true` or `false`, by `Value::from`.
#[verifier::external_body]
pub(crate) fn flag_value(flag: bool) -> (r: serde_json::Value)
    ensures
        json_of(r) == Json::Flag(flag),
{
    serde_json::Value::from(flag)
}

/// An object with the given fields, in that order, by `Map::from_iter` and `Value::Object`.
#[verifier::external_body]
pub(crate) fn object_value(list: Vec<(String, serde_json::Value)>) -> (r: serde_json::Value)
    requires
        distinct(fields(list@)),
    ensures
        json_of(r) == Json::Object(fields(list@)),
{
    serde_json::Value::Object(list.into_iter().collect())
}

/// Writes a value by `serde_json::to_string_pretty`, which succeeds on every value. The text is
/// named; it is never blank. A value that is not nested deeply and holds no number but counts is
/// read back as it was.
#[verifier::external_body]
pub(crate) fn write_pretty(value: &serde_json::Value) -> (r: Result<String, serde_json::Error>)
    ensures
        r is Ok,
        r matches Ok(text) ==> text@ == json_pretty(json_of(*value)) && !text::is_blank(text@),
        r matches Ok(text) ==> plain(json_of(*value), 16) ==> json_in(text@) == Some(
            json_of(*value),
        ),
{
    serde_json::to_string_pretty(value)
}

/// Writes a value by `serde_json::to_string`, which succeeds on every value. The text is named.
/// It holds no line feed: those inside a string are escaped.
#[verifier::external_body]
pub(crate) fn write_line(value: &serde_json::Value) -> (r: Result<String, serde_json::Error>)
    ensures
        r is Ok,
        r matches Ok(text) ==> text@ == json_line(json_of(*value)) && !text@.contains('\n'),
        r matches Ok(text) ==> plain(json_of(*value), 16) ==> json_in(text@) == Some(
            json_of(*value),
        ),
{
    serde_json::to_string(value)
}

} // verus!

//! A plain tree of JSON values, read from text by `serde_json`.
use vstd::prelude::*;

verus! {

/// A JSON value. Numbers keep their value only where it is a `u64`; object
/// members keep the order in which the reader hands them over.
pub enum Json {
    Null,
    Bool(bool),
    Number(Option<u64>),
    Str(String),
    Array(Vec<Json>),
    Object(Vec<(String, Json)>),
}

#[verifier::external_type_specification]
#[verifier::external_body]
pub struct ExValue(serde_json::Value);

/// What `serde_json::from_slice` makes of a byte text, as a plain tree, or
/// `None` where the text is not UTF-8 JSON.
pub uninterp spec fn json_of_bytes(b: Seq<u8>) -> Option<Json>;

/// Relies on `serde_json::from_slice` to read a JSON document from bytes; the
/// result depends on the bytes alone.
#[verifier::external_body]
pub fn parse_json(b: &[u8]) -> (r: Option<Json>)
    ensures
        r == json_of_bytes(b@),
{
    serde_json::from_slice::<serde_json::Value>(b).ok().map(tree_of_value)
}

/// Moves a `serde_json::Value` into the plain tree, variant for variant;
/// relies on `serde_json::Number::as_u64` for numbers.
#[verifier::external_body]
fn tree_of_value(v: serde_json::Value) -> Json {
    match v {
        serde_json::Value::Null => Json::Null,
        serde_json::Value::Bool(b) => Json::Bool(b),
        serde_json::Value::Number(n) => Json::Number(n.as_u64()),
        serde_json::Value::String(s) => Json::Str(s),
        serde_json::Value::Array(a) => Json::Array(a.into_iter().map(tree_of_value).collect()),
        serde_json::Value::Object(o) => Json::Object(
            o.into_iter().map(|(k, x)| (k, tree_of_value(x))).collect(),
        ),
    }
}

/// The value of the first member named `key` among `fields`.
pub open spec fn lookup(fields: Seq<(String, Json)>, key: Seq<char>) -> Option<Json>
    decreases fields.len(),
{
    if fields.len() == 0 {
        None
    } else if fields[0].0@ == key {
        Some(fields[0].1)
    } else {
        lookup(fields.drop_first(), key)
    }
}

/// The member `key` of `j`, where `j` is an object that has one.
pub open spec fn member(j: Json, key: Seq<char>) -> Option<Json> {
    match j {
        Json::Object(fields) => lookup(fields@, key),
        _ => None,
    }
}

/// The integer that `j` holds, if it is a `u64` number.
pub open spec fn as_u64(j: Option<Json>) -> Option<u64> {
    match j {
        Some(Json::Number(Some(n))) => Some(n),
        _ => None,
    }
}

/// The text that `j` holds, if it is a string.
pub open spec fn as_text(j: Option<Json>) -> Option<Seq<char>> {
    match j {
        Some(Json::Str(s)) => Some(s@),
        _ => None,
    }
}

/// The truth value that `j` holds, if it is a boolean.
pub open spec fn as_bool(j: Option<Json>) -> Option<bool> {
    match j {
        Some(Json::Bool(b)) => Some(b),
        _ => None,
    }
}

/// The member `key` of `j`.
pub fn get<'a>(j: &'a Json, key: &str) -> (r: Option<&'a Json>)
    ensures
        r matches Some(v) ==> member(*j, key@) == Some(*v),
        r is None ==> member(*j, key@) is None,
{
    match j {
        Json::Object(fields) => {
            let k = key.to_string();
            proof {
                broadcast use vstd::string::to_string_from_display_ensures_for_str;
            }
            let mut i: usize = 0;
            assert(fields@.skip(0) =~= fields@);
            while i < fields.len()
                invariant
                    0 <= i <= fields.len(),
                    k@ == key@,
                    member(*j, key@) == lookup(fields@, key@),
                    lookup(fields@, key@) == lookup(fields@.skip(i as int), key@),
                decreases fields.len() - i,
            {
                assert(fields@.skip(i as int).drop_first() =~= fields@.skip(i + 1));
                assert(fields@.skip(i as int)[0] == fields@[i as int]);
                if fields[i].0 == k {
                    return Some(&fields[i].1);
                }
                i = i + 1;
            }
            None
        },
        _ => None,
    }
}

/// The integer held by the member `key` of `j`.
pub fn get_u64(j: &Json, key: &str) -> (r: Option<u64>)
    ensures
        r == as_u64(member(*j, key@)),
{
    match get(j, key) {
        Some(Json::Number(Some(n))) => Some(*n),
        _ => None,
    }
}

/// The text held by the member `key` of `j`.
pub fn get_str<'a>(j: &'a Json, key: &str) -> (r: Option<&'a String>)
    ensures
        r matches Some(s) ==> as_text(member(*j, key@)) == Some(s@),
        r is None ==> as_text(member(*j, key@)) is None,
{
    match get(j, key) {
        Some(Json::Str(s)) => Some(s),
        _ => None,
    }
}

/// The truth value held by the member `key` of `j`.
pub fn get_bool(j: &Json, key: &str) -> (r: Option<bool>)
    ensures
        r == as_bool(member(*j, key@)),
{
    match get(j, key) {
        Some(Json::Bool(b)) => Some(*b),
        _ => None,
    }
}

} // verus!

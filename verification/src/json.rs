//! A plain model of JSON documents, filled by `serde_json`, and the lookups
//! that the provider protocols make on it.
use vstd::prelude::*;

verus! {

/// A JSON value. Numbers are kept as the text `serde_json` prints for them;
/// an object keeps its members in the order `serde_json` hands them out.
#[derive(Debug)]
pub enum JsonValue {
    Null,
    Bool(bool),
    Number(String),
    String(String),
    Array(Vec<JsonValue>),
    Object(Vec<(String, JsonValue)>),
}

#[verifier::external_type_specification]
#[verifier::external_body]
pub struct ExSerdeJsonValue(serde_json::Value);

/// What `serde_json::from_str::<serde_json::Value>` makes of `text`: the
/// document, or the text its error displays.
pub uninterp spec fn spec_json_from_str(text: Seq<char>) -> Result<JsonValue, Seq<char>>;

/// The document `text` holds, `None` where it is not JSON.
pub open spec fn spec_parse_json(text: Seq<char>) -> Option<JsonValue> {
    match spec_json_from_str(text) {
        Ok(v) => Some(v),
        Err(_) => None,
    }
}

/// Moves a `serde_json::Value` into the library's model, variant by variant.
#[verifier::external_body]
fn json_from_serde(value: serde_json::Value) -> JsonValue {
    match value {
        serde_json::Value::Null => JsonValue::Null,
        serde_json::Value::Bool(b) => JsonValue::Bool(b),
        serde_json::Value::Number(n) => JsonValue::Number(n.to_string()),
        serde_json::Value::String(s) => JsonValue::String(s),
        serde_json::Value::Array(items) => JsonValue::Array(
            items.into_iter().map(json_from_serde).collect(),
        ),
        serde_json::Value::Object(map) => JsonValue::Object(
            map.into_iter().map(|(k, v)| (k, json_from_serde(v))).collect(),
        ),
    }
}

/// Parses `text` with `serde_json::from_str::<serde_json::Value>`.
/// Claimed: the document or the displayed error is the parser's, as named by
/// `spec_json_from_str`. Nothing is claimed about which texts parse.
#[verifier::external_body]
pub fn json_from_str(text: &str) -> (r: Result<JsonValue, String>)
    ensures
        match r {
            Ok(v) => spec_json_from_str(text@) == Ok::<JsonValue, Seq<char>>(v),
            Err(m) => spec_json_from_str(text@) == Err::<JsonValue, Seq<char>>(m@),
        },
{
    match serde_json::from_str::<serde_json::Value>(text) {
        Ok(value) => Ok(json_from_serde(value)),
        Err(err) => Err(err.to_string()),
    }
}

/// The document `text` holds, `None` where it is not JSON.
pub fn parse_json(text: &str) -> (r: Option<JsonValue>)
    ensures
        r == spec_parse_json(text@),
{
    match json_from_str(text) {
        Ok(v) => Some(v),
        Err(_) => None,
    }
}

/// The value of the first member named `key` among `members`.
pub open spec fn member_value(members: Seq<(String, JsonValue)>, key: Seq<char>) -> Option<JsonValue>
    decreases members.len(),
{
    if members.len() == 0 {
        None
    } else if members[0].0@ == key {
        Some(members[0].1)
    } else {
        member_value(members.drop_first(), key)
    }
}

/// `serde_json::Value::get` with a string key.
pub open spec fn get_key(v: Option<JsonValue>, key: Seq<char>) -> Option<JsonValue> {
    match v {
        Some(JsonValue::Object(members)) => member_value(members@, key),
        _ => None,
    }
}

/// `serde_json::Value::get` with an index.
pub open spec fn get_index(v: Option<JsonValue>, i: int) -> Option<JsonValue> {
    match v {
        Some(JsonValue::Array(items)) => if 0 <= i < items@.len() {
            Some(items@[i])
        } else {
            None
        },
        _ => None,
    }
}

/// `serde_json::Value::as_str`.
pub open spec fn as_str(v: Option<JsonValue>) -> Option<Seq<char>> {
    match v {
        Some(JsonValue::String(s)) => Some(s@),
        _ => None,
    }
}

/// `serde_json::Value::as_array`.
pub open spec fn as_array(v: Option<JsonValue>) -> Option<Seq<JsonValue>> {
    match v {
        Some(JsonValue::Array(items)) => Some(items@),
        _ => None,
    }
}

pub fn member<'a>(v: &'a JsonValue, key: &str) -> (r: Option<&'a JsonValue>)
    ensures
        r.is_some() == get_key(Some(*v), key@).is_some(),
        r matches Some(x) ==> get_key(Some(*v), key@) == Some(*x),
{
    match v {
        JsonValue::Object(members) => {
            let wanted = crate::text::chars_of(key);
            let mut i: usize = 0;
            assert(members@.subrange(0, members@.len() as int) =~= members@);
            while i < members.len()
                invariant
                    i <= members@.len(),
                    member_value(members@, key@) == member_value(
                        members@.subrange(i as int, members@.len() as int),
                        key@,
                    ),
                    wanted@ == key@,
                    *v == JsonValue::Object(*members),
                decreases members.len() - i,
            {
                let name = crate::text::chars_of(members[i].0.as_str());
                assert(members@.subrange(i as int, members@.len() as int).drop_first()
                    =~= members@.subrange(i + 1, members@.len() as int));
                assert(members@.subrange(i as int, members@.len() as int)[0] == members@[i as int]);
                if crate::text::chars_eq(&name, &wanted) {
                    return Some(&members[i].1);
                }
                i = i + 1;
            }
            assert(members@.subrange(i as int, members@.len() as int).len() == 0);
            None
        },
        _ => None,
    }
}

pub fn element<'a>(v: &'a JsonValue, i: usize) -> (r: Option<&'a JsonValue>)
    ensures
        r.is_some() == get_index(Some(*v), i as int).is_some(),
        r matches Some(x) ==> get_index(Some(*v), i as int) == Some(*x),
{
    match v {
        JsonValue::Array(items) => {
            if i < items.len() {
                Some(&items[i])
            } else {
                None
            }
        },
        _ => None,
    }
}

pub fn string_value(v: &JsonValue) -> (r: Option<String>)
    ensures
        r.is_some() == as_str(Some(*v)).is_some(),
        r matches Some(s) ==> as_str(Some(*v)) == Some(s@),
{
    match v {
        JsonValue::String(s) => Some(s.clone()),
        _ => None,
    }
}

} // verus!

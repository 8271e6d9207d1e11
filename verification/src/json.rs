//! A parsed JSON document, as the logic that reads command output sees it.
use vstd::prelude::*;

verus! {

/// One JSON value. A number is kept as its text; an object lists its
/// members in the order the parser hands them out, and a lookup takes the
/// first member with the key.
#[derive(Debug, PartialEq)]
pub enum JsonValue {
    Null,
    Bool(bool),
    Number(String),
    Text(String),
    Array(Vec<JsonValue>),
    Object(Vec<(String, JsonValue)>),
}

/// The first member named `k` of an object's member list.
pub open spec fn member_of(es: Seq<(String, JsonValue)>, k: Seq<char>) -> Option<JsonValue>
    decreases es.len(),
{
    if es.len() == 0 {
        None
    } else if es[0].0@ == k {
        Some(es[0].1)
    } else {
        member_of(es.drop_first(), k)
    }
}

/// The member `k` of `v`; `None` when `v` is not an object or has no such
/// member.
pub open spec fn member(v: JsonValue, k: Seq<char>) -> Option<JsonValue> {
    match v {
        JsonValue::Object(es) => member_of(es@, k),
        _ => None,
    }
}

/// The text of a value that is a JSON string.
pub open spec fn text_of(v: Option<JsonValue>) -> Option<Seq<char>> {
    match v {
        Some(JsonValue::Text(s)) => Some(s@),
        _ => None,
    }
}

/// The member `key` of `v` (as `serde_json::Value::get` with a string key).
pub fn get<'a>(v: &'a JsonValue, key: &str) -> (r: Option<&'a JsonValue>)
    ensures
        match r {
            Some(m) => member(*v, key@) == Some(*m),
            None => member(*v, key@) is None,
        },
{
    match v {
        JsonValue::Object(es) => {
            let mut i: usize = 0;
            assert(es@.skip(0) == es@);
            while i < es.len()
                invariant
                    0 <= i <= es.len(),
                    member(*v, key@) == member_of(es@, key@),
                    member_of(es@, key@) == member_of(es@.skip(i as int), key@),
                decreases es.len() - i,
            {
                assert(es@.skip(i as int).drop_first() == es@.skip(i + 1));
                if es[i].0.as_str().unicode_len() == key.unicode_len() && crate::text::str_starts_with(
                    es[i].0.as_str(),
                    key,
                ) {
                    assert(es@[i as int].0@.take(key@.len() as int) == es@[i as int].0@);
                    return Some(&es[i].1);
                }
                proof {
                    if es@[i as int].0@ == key@ {
                        assert(key@.take(key@.len() as int) == key@);
                    }
                }
                i = i + 1;
            }
            None
        },
        _ => None,
    }
}

/// The text of a JSON string value (as `serde_json::Value::as_str`).
pub fn as_text<'a>(v: Option<&'a JsonValue>) -> (r: Option<&'a String>)
    ensures
        match r {
            Some(s) => v matches Some(x) && text_of(Some(*x)) == Some(s@),
            None => match v {
                Some(x) => text_of(Some(*x)) is None,
                None => true,
            },
        },
{
    match v {
        Some(JsonValue::Text(s)) => Some(s),
        _ => None,
    }
}

/// `serde_json::Value`, the parser's own document type; opaque here, and
/// only converted into `JsonValue` right where the parser hands it over.
#[verifier::external_type_specification]
#[verifier::external_body]
pub struct ExSerdeJsonValue(serde_json::Value);

/// Names the document that `serde_json::from_str::<serde_json::Value>`
/// parses from `text`, converted into a `JsonValue`; `None` when the text
/// is not valid JSON.
pub uninterp spec fn json_document(text: Seq<char>) -> Option<JsonValue>;

/// Parses `text` with `serde_json::from_str::<serde_json::Value>` and
/// converts the document into a `JsonValue`. The contract names the result
/// as a function of the text alone (the parse is deterministic); JSON's
/// grammar is not restated.
#[verifier::external_body]
pub fn parse_json(text: &str) -> (r: Option<JsonValue>)
    ensures
        r == json_document(text@),
{
    serde_json::from_str::<serde_json::Value>(text).ok().map(json_value_from)
}

/// The one-for-one conversion `parse_json` applies: each variant of
/// `serde_json::Value` into the same variant of `JsonValue` (a number as its
/// text), members and elements converted in the order the parser holds
/// them. It states nothing of its own; `parse_json`'s contract covers it.
#[verifier::external_body]
fn json_value_from(v: serde_json::Value) -> JsonValue {
    match v {
        serde_json::Value::Null => JsonValue::Null,
        serde_json::Value::Bool(b) => JsonValue::Bool(b),
        serde_json::Value::Number(n) => JsonValue::Number(n.to_string()),
        serde_json::Value::String(s) => JsonValue::Text(s),
        serde_json::Value::Array(a) => JsonValue::Array(a.into_iter().map(json_value_from).collect()),
        serde_json::Value::Object(m) => JsonValue::Object(
            m.into_iter().map(|(k, v)| (k, json_value_from(v))).collect(),
        ),
    }
}

} // verus!

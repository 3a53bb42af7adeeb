//! JSON documents as plain values: what the provider payload parsers read.
//! An object keeps its members in document order; its keys are distinct
//! (as in a parsed JSON document, where a repeated key keeps its last value).
use vstd::prelude::*;
use crate::text::str_eq;

verus! {

/// A JSON value; a number is kept as its JSON text.
#[derive(Debug)]
pub enum JsonValue {
    Null,
    Bool(bool),
    Number(String),
    Str(String),
    Array(Vec<JsonValue>),
    Object(Vec<(String, JsonValue)>),
}

/// The member of an object with the key, if any (`Value::get`); `None` for
/// any other value.
pub open spec fn field_of(v: JsonValue, key: Seq<char>) -> Option<JsonValue> {
    match v {
        JsonValue::Object(members) => member_from(members@, key, 0),
        _ => None,
    }
}

/// The value of the first member (from the `i`-th on) with the key.
pub open spec fn member_from(members: Seq<(String, JsonValue)>, key: Seq<char>, i: int) -> Option<JsonValue>
    decreases members.len() - i,
{
    if i < 0 || i >= members.len() {
        None
    } else if members[i].0@ == key {
        Some(members[i].1)
    } else {
        member_from(members, key, i + 1)
    }
}

/// The text of a string value (`Value::as_str`).
pub open spec fn str_of(v: Option<JsonValue>) -> Option<Seq<char>> {
    match v {
        Some(JsonValue::Str(s)) => Some(s@),
        _ => None,
    }
}

/// The member of an object with the key.
pub fn get<'a>(v: &'a JsonValue, key: &str) -> (r: Option<&'a JsonValue>)
    ensures
        match r {
            Some(x) => field_of(*v, key@) == Some(*x),
            None => field_of(*v, key@) is None,
        },
{
    match v {
        JsonValue::Object(members) => {
            assert(field_of(*v, key@) == member_from(members@, key@, 0));
            let mut i: usize = 0;
            while i < members.len()
                invariant
                    i <= members@.len(),
                    field_of(*v, key@) == member_from(members@, key@, 0),
                    member_from(members@, key@, 0) == member_from(members@, key@, i as int),
                decreases members@.len() - i,
            {
                let m = &members[i];
                if str_eq(m.0.as_str(), key) {
                    assert(member_from(members@, key@, i as int) == Some(m.1));
                    return Some(&m.1);
                }
                i = i + 1;
            }
            None
        },
        _ => None,
    }
}

/// The text of a string value.
pub fn as_text(v: Option<&JsonValue>) -> (r: Option<&String>)
    ensures
        match r {
            Some(s) => str_of(match v {
                Some(x) => Some(*x),
                None => None,
            }) == Some(s@),
            None => str_of(match v {
                Some(x) => Some(*x),
                None => None,
            }) is None,
        },
{
    match v {
        Some(JsonValue::Str(s)) => Some(s),
        _ => None,
    }
}

} // verus!

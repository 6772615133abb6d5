//! JSON documents, as the launcher reads them: HTTP response bodies and the
//! small JSON files other launchers leave on disk. Text is turned into a
//! [`JsonValue`] where the bytes are read; everything the launcher decides
//! from a document is decided here, over this type.

use vstd::prelude::*;

use crate::text::str_equal;

verus! {

/// A JSON value. Integral numbers are held exactly; any other number is kept
/// as its text.
#[derive(Debug, PartialEq)]
pub enum JsonValue {
    Null,
    Bool(bool),
    Int(i128),
    Decimal(String),
    Str(String),
    Array(Vec<JsonValue>),
    Object(Vec<(String, JsonValue)>),
}

/// The value of the first member of `members` from index `i` on whose name
/// is `key`.
pub open spec fn member_from(members: Seq<(String, JsonValue)>, key: Seq<char>, i: int) -> Option<
    JsonValue,
>
    decreases members.len() - i,
{
    if i < 0 || i >= members.len() {
        None
    } else if members[i].0@ == key {
        Some(members[i].1)
    } else {
        member_from(members, key, i + 1)
    }
}

/// The member `key` of an object (`None` for anything that is not an object,
/// or has no such member).
pub open spec fn field(v: JsonValue, key: Seq<char>) -> Option<JsonValue> {
    match v {
        JsonValue::Object(members) => member_from(members@, key, 0),
        _ => None,
    }
}

/// The element at `index` of an array (`None` for anything that is not an
/// array, or has no such element). serde reads a record given as an array
/// field by field, in the order the fields are declared.
pub open spec fn element(v: JsonValue, index: int) -> Option<JsonValue> {
    match v {
        JsonValue::Array(a) => if 0 <= index < a@.len() {
            Some(a@[index])
        } else {
            None
        },
        _ => None,
    }
}

/// The text of a string value.
pub open spec fn string_of(v: Option<JsonValue>) -> Option<Seq<char>> {
    match v {
        Some(JsonValue::Str(s)) => Some(s@),
        _ => None,
    }
}

impl JsonValue {
    /// The member `key` of an object.
    pub fn get(&self, key: &str) -> (r: Option<&JsonValue>)
        ensures
            match field(*self, key@) {
                Some(v) => r matches Some(x) && *x == v,
                None => r is None,
            },
    {
        match self {
            JsonValue::Object(members) => {
                let mut i: usize = 0;
                while i < members.len()
                    invariant
                        i <= members@.len(),
                        *self == JsonValue::Object(*members),
                        member_from(members@, key@, 0) == member_from(members@, key@, i as int),
                    decreases members.len() - i,
                {
                    if str_equal(members[i].0.as_str(), key) {
                        return Some(&members[i].1);
                    }
                    i = i + 1;
                }
                None
            },
            _ => None,
        }
    }

    /// The element at `index`, if this is an array that long.
    pub fn at(&self, index: usize) -> (r: Option<&JsonValue>)
        ensures
            match element(*self, index as int) {
                Some(v) => r matches Some(x) && *x == v,
                None => r is None,
            },
    {
        match self {
            JsonValue::Array(a) => if index < a.len() {
                Some(&a[index])
            } else {
                None
            },
            _ => None,
        }
    }

    /// The text, if this is a string.
    pub fn as_str(&self) -> (r: Option<&str>)
        ensures
            match self {
                JsonValue::Str(s) => r matches Some(x) && x@ == s@,
                _ => r is None,
            },
    {
        match self {
            JsonValue::Str(s) => Some(s.as_str()),
            _ => None,
        }
    }

    /// The elements, if this is an array.
    pub fn as_array(&self) -> (r: Option<&Vec<JsonValue>>)
        ensures
            match self {
                JsonValue::Array(a) => r matches Some(x) && *x == a,
                _ => r is None,
            },
    {
        match self {
            JsonValue::Array(a) => Some(a),
            _ => None,
        }
    }
}

/// An optional string member read as serde reads an `Option<String>` field:
/// absent or `null` is `None`, a string is `Some`, anything else is refused.
pub open spec fn optional_string(v: Option<JsonValue>) -> Result<Option<Seq<char>>, ()> {
    match v {
        None => Ok(None),
        Some(JsonValue::Null) => Ok(None),
        Some(JsonValue::Str(s)) => Ok(Some(s@)),
        _ => Err(()),
    }
}

/// Reads an optional string member (see [`optional_string`]).
pub fn read_optional_string(v: Option<&JsonValue>) -> (r: Result<Option<String>, ()>)
    ensures
        match optional_string(
            match v {
                Some(x) => Some(*x),
                None => None,
            },
        ) {
            Ok(Some(s)) => r matches Ok(Some(x)) && x@ == s,
            Ok(None) => r matches Ok(None),
            Err(_) => r is Err,
        },
{
    match v {
        None => Ok(None),
        Some(JsonValue::Null) => Ok(None),
        Some(JsonValue::Str(s)) => Ok(Some(s.clone())),
        _ => Err(()),
    }
}

} // verus!

//! A plain model of a parsed JSON document, and the field lookups that the
//! request handlers perform on it.
use vstd::prelude::*;

use crate::text::{parse_u64_spec, parse_u64_str, str_eq};

verus! {

broadcast use vstd::string::group_string_axioms;

/// A JSON value. Numbers that are non-negative integers fitting in 64 bits are
/// kept; other numbers (negative, fractional, too large) are only marked.
pub enum JsonValue {
    Null,
    Bool(bool),
    UInt(u64),
    OtherNumber,
    Str(String),
    Array(Vec<JsonValue>),
    Object(Vec<(String, JsonValue)>),
}

/// The first entry of an object whose key is `key`.
pub open spec fn entries_get(entries: Seq<(String, JsonValue)>, key: Seq<char>) -> Option<JsonValue>
    decreases entries.len(),
{
    if entries.len() == 0 {
        None
    } else if entries[0].0@ == key {
        Some(entries[0].1)
    } else {
        entries_get(entries.drop_first(), key)
    }
}

/// `Value::get(key)`: the member of an object, `None` for any other value.
pub open spec fn get_spec(v: JsonValue, key: Seq<char>) -> Option<JsonValue> {
    match v {
        JsonValue::Object(entries) => entries_get(entries@, key),
        _ => None,
    }
}

/// `Value::as_str`.
pub open spec fn as_str_spec(v: Option<JsonValue>) -> Option<Seq<char>> {
    match v {
        Some(JsonValue::Str(s)) => Some(s@),
        _ => None,
    }
}

/// The first of `keys` whose member is a string, and that string.
pub open spec fn read_string_spec(v: JsonValue, keys: Seq<Seq<char>>) -> Option<Seq<char>>
    decreases keys.len(),
{
    if keys.len() == 0 {
        None
    } else {
        match as_str_spec(get_spec(v, keys[0])) {
            Some(s) => Some(s),
            None => read_string_spec(v, keys.drop_first()),
        }
    }
}

/// A member read as a `u64`: an integer number, or a string that parses as one.
pub open spec fn member_u64(m: Option<JsonValue>) -> Option<u64> {
    match m {
        Some(JsonValue::UInt(n)) => Some(n),
        Some(JsonValue::Str(s)) => parse_u64_spec(s@),
        _ => None,
    }
}

/// The first of `keys` whose member reads as a `u64`.
pub open spec fn read_u64_spec(v: JsonValue, keys: Seq<Seq<char>>) -> Option<u64>
    decreases keys.len(),
{
    if keys.len() == 0 {
        None
    } else {
        match member_u64(get_spec(v, keys[0])) {
            Some(n) => Some(n),
            None => read_u64_spec(v, keys.drop_first()),
        }
    }
}

pub open spec fn keys_view(keys: Seq<&str>) -> Seq<Seq<char>> {
    keys.map_values(|k: &str| k@)
}

impl JsonValue {
    /// `Value::get`: the member named `key` of an object.
    pub fn get(&self, key: &str) -> (r: Option<&JsonValue>)
        ensures
            match r {
                Some(x) => get_spec(*self, key@) == Some(*x),
                None => get_spec(*self, key@) is None,
            },
    {
        match self {
            JsonValue::Object(entries) => {
                let mut i: usize = 0;
                assert(entries@.skip(0) == entries@);
                while i < entries.len()
                    invariant
                        i <= entries@.len(),
                        get_spec(*self, key@) == entries_get(entries@, key@),
                        entries_get(entries@, key@) == entries_get(entries@.skip(i as int), key@),
                    decreases entries@.len() - i,
                {
                    let ghost rest = entries@.skip(i as int);
                    assert(rest.drop_first() == entries@.skip(i + 1));
                    assert(rest[0] == entries@[i as int]);
                    if str_eq(entries[i].0.as_str(), key) {
                        return Some(&entries[i].1);
                    }
                    i = i + 1;
                }
                None
            },
            _ => None,
        }
    }

    /// `Value::as_str`.
    pub fn as_str(&self) -> (r: Option<&str>)
        ensures
            match r {
                Some(s) => as_str_spec(Some(*self)) == Some(s@),
                None => as_str_spec(Some(*self)) is None,
            },
    {
        match self {
            JsonValue::Str(s) => Some(s.as_str()),
            _ => None,
        }
    }

    /// Whether the value is an object.
    pub fn is_object(&self) -> (r: bool)
        ensures
            r == (*self is Object),
    {
        match self {
            JsonValue::Object(_) => true,
            _ => false,
        }
    }
}

/// The first of `keys` whose member is a string.
pub fn read_string_field(value: &JsonValue, keys: &[&str]) -> (r: Option<String>)
    ensures
        match r {
            Some(s) => read_string_spec(*value, keys_view(keys@)) == Some(s@),
            None => read_string_spec(*value, keys_view(keys@)) is None,
        },
{
    let mut i: usize = 0;
    assert(keys_view(keys@).skip(0) == keys_view(keys@));
    while i < keys.len()
        invariant
            i <= keys@.len(),
            read_string_spec(*value, keys_view(keys@)) == read_string_spec(
                *value,
                keys_view(keys@).skip(i as int),
            ),
        decreases keys@.len() - i,
    {
        let ghost ks = keys_view(keys@).skip(i as int);
        assert(ks[0] == keys@[i as int]@);
        assert(ks.drop_first() == keys_view(keys@).skip(i + 1));
        match value.get(keys[i]) {
            Some(found) => {
                match found.as_str() {
                    Some(s) => {
                        return Some(String::from_str(s));
                    },
                    None => {},
                }
            },
            None => {},
        }
        i = i + 1;
    }
    None
}

/// The first of `keys` whose member reads as a `u64` (`read_u64_field`).
pub fn read_u64_field(value: &JsonValue, keys: &[&str]) -> (r: Option<u64>)
    ensures
        r == read_u64_spec(*value, keys_view(keys@)),
{
    let mut i: usize = 0;
    assert(keys_view(keys@).skip(0) == keys_view(keys@));
    while i < keys.len()
        invariant
            i <= keys@.len(),
            read_u64_spec(*value, keys_view(keys@)) == read_u64_spec(
                *value,
                keys_view(keys@).skip(i as int),
            ),
        decreases keys@.len() - i,
    {
        let ghost ks = keys_view(keys@).skip(i as int);
        assert(ks[0] == keys@[i as int]@);
        assert(ks.drop_first() == keys_view(keys@).skip(i + 1));
        match value.get(keys[i]) {
            Some(JsonValue::UInt(n)) => {
                return Some(*n);
            },
            Some(JsonValue::Str(s)) => {
                match parse_u64_str(s.as_str()) {
                    Some(n) => {
                        return Some(n);
                    },
                    None => {},
                }
            },
            _ => {},
        }
        i = i + 1;
    }
    None
}

} // verus!

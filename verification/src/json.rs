//! JSON values as the translation services answer them, with the lookups
//! `serde_json::Value` offers: index into an array, field of an object,
//! text of a string. Numbers are kept as their text.

use vstd::prelude::*;
use crate::text::str_eq;

verus! {

pub enum JsonValue {
    Null,
    Bool(bool),
    Number(String),
    Str(String),
    Array(Vec<JsonValue>),
    Object(Vec<(String, JsonValue)>),
}

/// Element `i` of an array; `None` for other values or out of range.
pub open spec fn json_at(v: JsonValue, i: int) -> Option<JsonValue> {
    match v {
        JsonValue::Array(a) => if 0 <= i < a@.len() {
            Some(a@[i])
        } else {
            None
        },
        _ => None,
    }
}

/// The value of the first entry named `key`.
pub open spec fn field_in(entries: Seq<(String, JsonValue)>, key: Seq<char>) -> Option<JsonValue>
    decreases entries.len(),
{
    if entries.len() == 0 {
        None
    } else if entries[0].0@ == key {
        Some(entries[0].1)
    } else {
        field_in(entries.drop_first(), key)
    }
}

/// Field `key` of an object; `None` for other values or a missing key.
pub open spec fn json_get(v: JsonValue, key: Seq<char>) -> Option<JsonValue> {
    match v {
        JsonValue::Object(e) => field_in(e@, key),
        _ => None,
    }
}

/// The text of a string value.
pub open spec fn json_str(v: JsonValue) -> Option<Seq<char>> {
    match v {
        JsonValue::Str(s) => Some(s@),
        _ => None,
    }
}

/// `json_at` after a lookup that may have failed.
pub open spec fn opt_at(v: Option<JsonValue>, i: int) -> Option<JsonValue> {
    match v {
        Some(x) => json_at(x, i),
        None => None,
    }
}

/// `json_get` after a lookup that may have failed.
pub open spec fn opt_get(v: Option<JsonValue>, key: Seq<char>) -> Option<JsonValue> {
    match v {
        Some(x) => json_get(x, key),
        None => None,
    }
}

/// `json_str` after a lookup that may have failed.
pub open spec fn opt_str(v: Option<JsonValue>) -> Option<Seq<char>> {
    match v {
        Some(x) => json_str(x),
        None => None,
    }
}

impl JsonValue {
    /// Element `i` of an array (`Value::get` with an index).
    pub fn at(&self, i: usize) -> (r: Option<&JsonValue>)
        ensures
            match r {
                Some(x) => json_at(*self, i as int) == Some(*x),
                None => json_at(*self, i as int) is None,
            },
    {
        match self {
            JsonValue::Array(a) => if i < a.len() {
                Some(&a[i])
            } else {
                None
            },
            _ => None,
        }
    }

    /// Field `key` of an object (`Value::get` with a key).
    pub fn get(&self, key: &str) -> (r: Option<&JsonValue>)
        ensures
            match r {
                Some(x) => json_get(*self, key@) == Some(*x),
                None => json_get(*self, key@) is None,
            },
    {
        match self {
            JsonValue::Object(e) => {
                let mut i: usize = 0;
                assert(e@.skip(0) =~= e@);
                while i < e.len()
                    invariant
                        i <= e.len(),
                        json_get(*self, key@) == field_in(e@, key@),
                        field_in(e@, key@) == field_in(e@.skip(i as int), key@),
                    decreases e.len() - i,
                {
                    assert(e@.skip(i as int)[0] == e@[i as int]);
                    if str_eq(e[i].0.as_str(), key) {
                        assert(e@.skip(i as int)[0].0@ == key@);
                        assert(field_in(e@.skip(i as int), key@) == Some(e@[i as int].1));
                        assert(json_get(*self, key@) == field_in(e@, key@));
                        let r = &e[i].1;
                        assert(*r == e@[i as int].1);
                        return Some(r);
                    }
                    assert(e@.skip(i as int).drop_first() =~= e@.skip(i + 1));
                    i = i + 1;
                }
                None
            },
            _ => None,
        }
    }

    /// The text of a string value (`Value::as_str`).
    pub fn as_str(&self) -> (r: Option<&String>)
        ensures
            match r {
                Some(s) => json_str(*self) == Some(s@),
                None => json_str(*self) is None,
            },
    {
        match self {
            JsonValue::Str(s) => Some(s),
            _ => None,
        }
    }
}

} // verus!

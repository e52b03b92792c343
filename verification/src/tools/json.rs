//! JSON values as the tool protocol exchanges them, and reading fields
//! out of them.

use vstd::prelude::*;
use crate::decimal::{parse_i64, parse_i64_text};
use crate::text::str_equals;

verus! {

/// A JSON value. Numbers are kept as their JSON text; object members are
/// kept in order.
#[derive(Debug)]
pub enum JsonValue {
    Null,
    Bool(bool),
    Number(String),
    String(String),
    Array(Vec<JsonValue>),
    Object(Vec<(String, JsonValue)>),
}

/// The value of the first member named `key` among `es`.
pub open spec fn assoc(es: Seq<(String, JsonValue)>, key: Seq<char>) -> Option<JsonValue>
    decreases es.len(),
{
    if es.len() == 0 {
        None
    } else if es[0].0@ == key {
        Some(es[0].1)
    } else {
        assoc(es.drop_first(), key)
    }
}

/// The member `key` of `v`, when `v` is an object that has one
/// (as `serde_json::Value::get` with a string key).
pub open spec fn json_get(v: JsonValue, key: Seq<char>) -> Option<JsonValue> {
    match v {
        JsonValue::Object(es) => assoc(es@, key),
        _ => None,
    }
}

/// The text of `v`, when it is a JSON string (as `Value::as_str`).
pub open spec fn json_str(v: Option<JsonValue>) -> Option<Seq<char>> {
    match v {
        Some(JsonValue::String(s)) => Some(s@),
        _ => None,
    }
}

/// The value of `v` as an `i64`, when it is an integer number in range
/// (as `Value::as_i64`).
pub open spec fn json_i64(v: Option<JsonValue>) -> Option<i64> {
    match v {
        Some(JsonValue::Number(t)) => parse_i64_text(t@),
        _ => None,
    }
}

/// The position of the first member named `key` among `es`.
pub open spec fn assoc_index(es: Seq<(String, JsonValue)>, key: Seq<char>, i: int) -> bool {
    &&& 0 <= i < es.len()
    &&& es[i].0@ == key
    &&& forall|j: int| 0 <= j < i ==> es[j].0@ != key
}

pub proof fn lemma_assoc(es: Seq<(String, JsonValue)>, key: Seq<char>)
    ensures
        assoc(es, key) is None <==> forall|j: int| 0 <= j < es.len() ==> es[j].0@ != key,
        forall|i: int| assoc_index(es, key, i) ==> assoc(es, key) == Some(es[i].1),
    decreases es.len(),
{
    if es.len() > 0 {
        let t = es.drop_first();
        lemma_assoc(t, key);
        assert forall|i: int| assoc_index(es, key, i) implies assoc(es, key) == Some(es[i].1) by {
            if i > 0 {
                assert(assoc_index(t, key, i - 1));
            }
        }
        if es[0].0@ != key {
            assert((forall|j: int| 0 <= j < t.len() ==> t[j].0@ != key) <==> (forall|j: int|
                0 <= j < es.len() ==> es[j].0@ != key)) by {
                if forall|j: int| 0 <= j < t.len() ==> t[j].0@ != key {
                    assert forall|j: int| 0 <= j < es.len() implies es[j].0@ != key by {
                        if j > 0 {
                            assert(es[j] == t[j - 1]);
                        }
                    }
                }
            }
        }
    }
}

/// The position of the first member named `key` among `es`.
fn member_index(es: &Vec<(String, JsonValue)>, key: &str) -> (r: Option<usize>)
    ensures
        r matches Some(i) ==> assoc_index(es@, key@, i as int),
        r is None ==> forall|j: int| 0 <= j < es@.len() ==> es@[j].0@ != key@,
{
    let mut i: usize = 0;
    while i < es.len()
        invariant
            i <= es@.len(),
            forall|j: int| 0 <= j < i ==> es@[j].0@ != key@,
        decreases es@.len() - i,
    {
        if str_equals(es[i].0.as_str(), key) {
            return Some(i);
        }
        i = i + 1;
    }
    None
}

impl JsonValue {
    /// The member `key` of this value, when it is an object that has one.
    pub fn get(&self, key: &str) -> (r: Option<&JsonValue>)
        ensures
            r matches Some(x) ==> json_get(*self, key@) == Some(*x),
            r is None ==> json_get(*self, key@) is None,
    {
        match self {
            JsonValue::Object(es) => {
                proof {
                    lemma_assoc(es@, key@);
                }
                match member_index(es, key) {
                    Some(i) => Some(&es[i].1),
                    None => None,
                }
            },
            _ => None,
        }
    }

    /// Takes the member `key` out of this value, when it is an object that
    /// has one.
    pub fn take(self, key: &str) -> (r: Option<JsonValue>)
        ensures
            r == json_get(self, key@),
    {
        match self {
            JsonValue::Object(es) => {
                proof {
                    lemma_assoc(es@, key@);
                }
                match member_index(&es, key) {
                    Some(i) => {
                        let mut es = es;
                        let (_, v) = es.remove(i);
                        Some(v)
                    },
                    None => None,
                }
            },
            _ => None,
        }
    }

    /// The text of this value, when it is a JSON string.
    pub fn as_str(&self) -> (r: Option<&str>)
        ensures
            r matches Some(s) ==> json_str(Some(*self)) == Some(s@),
            r is None ==> json_str(Some(*self)) is None,
    {
        match self {
            JsonValue::String(s) => Some(s.as_str()),
            _ => None,
        }
    }

    /// The value as an `i64`, when it is an integer number in range.
    pub fn as_i64(&self) -> (r: Option<i64>)
        ensures
            r == json_i64(Some(*self)),
    {
        match self {
            JsonValue::Number(t) => parse_i64(t.as_str()),
            _ => None,
        }
    }
}

} // verus!

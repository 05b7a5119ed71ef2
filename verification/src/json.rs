//! The dynamically shaped payload: a tree of null, booleans, integer
//! numbers, text, sequences and field maps, navigated by field name.
//!
//! Handlers read only text fields; numbers outside the `i64` range are of no
//! interest to them and are carried as null.

use vstd::prelude::*;

use crate::crypto::constant_time_eq_str;

verus! {

/// One node of a parsed payload.
#[derive(Debug)]
pub enum JsonValue {
    Null,
    Bool(bool),
    Int(i64),
    Str(String),
    Arr(Vec<JsonValue>),
    Obj(Vec<(String, JsonValue)>),
}

/// The value under `key` in a field list: the first occurrence wins.
pub open spec fn spec_get_field(fields: Seq<(String, JsonValue)>, key: Seq<char>) -> Option<
    JsonValue,
>
    decreases fields.len(),
{
    if fields.len() == 0 {
        None
    } else if fields[0].0@ == key {
        Some(fields[0].1)
    } else {
        spec_get_field(fields.skip(1), key)
    }
}

/// The value under `key`, if the node is a field map that carries it.
pub open spec fn spec_get(v: JsonValue, key: Seq<char>) -> Option<JsonValue> {
    match v {
        JsonValue::Obj(fields) => spec_get_field(fields@, key),
        _ => None,
    }
}

/// The text under `key`, if the node carries text there.
pub open spec fn spec_get_str(v: JsonValue, key: Seq<char>) -> Option<String> {
    match spec_get(v, key) {
        Some(JsonValue::Str(s)) => Some(s),
        _ => None,
    }
}

impl JsonValue {
    /// Looks a field up by name; `None` on absent fields and on nodes that
    /// are not field maps, never a failure.
    pub fn get<'a>(&'a self, key: &str) -> (r: Option<&'a JsonValue>)
        ensures
            match r {
                Some(v) => spec_get(*self, key@) == Some(*v),
                None => spec_get(*self, key@) is None,
            },
    {
        match self {
            JsonValue::Obj(fields) => {
                let n = fields.len();
                let mut i: usize = 0;
                proof {
                    assert(fields@.skip(0) =~= fields@);
                }
                while i < n
                    invariant
                        0 <= i <= n,
                        n == fields@.len(),
                        *self == JsonValue::Obj(*fields),
                        spec_get_field(fields@, key@) == spec_get_field(
                            fields@.skip(i as int),
                            key@,
                        ),
                    decreases n - i,
                {
                    proof {
                        assert(fields@.skip(i as int)[0] == fields@[i as int]);
                        assert(fields@.skip(i as int).skip(1) =~= fields@.skip(i + 1));
                    }
                    if constant_time_eq_str(fields[i].0.as_str(), key) {
                        proof {
                            assert(fields@[i as int].0@ == key@);
                            assert(spec_get_field(fields@.skip(i as int), key@) == Some(
                                fields@[i as int].1,
                            ));
                        }
                        return Some(&fields[i].1);
                    }
                    i = i + 1;
                }
                proof {
                    assert(fields@.skip(n as int) =~= Seq::<(String, JsonValue)>::empty());
                }
                None
            },
            _ => None,
        }
    }

    /// Looks a text field up by name; `None` whenever the field is absent or
    /// not text.
    pub fn get_str<'a>(&'a self, key: &str) -> (r: Option<&'a String>)
        ensures
            match r {
                Some(s) => spec_get_str(*self, key@) == Some(*s),
                None => spec_get_str(*self, key@) is None,
            },
    {
        match self.get(key) {
            Some(v) => match v {
                JsonValue::Str(s) => Some(s),
                _ => None,
            },
            None => None,
        }
    }
}

#[verifier::external_type_specification]
#[verifier::external_body]
pub struct ExJsonRaw(serde_json::Value);

/// Turns the outside parse tree into the library's own, node by node.
/// Nothing is assumed of this conversion; `parse_json` alone carries the
/// contract.
#[verifier::external_body]
fn convert_json(v: serde_json::Value) -> JsonValue {
    match v {
        serde_json::Value::Null => JsonValue::Null,
        serde_json::Value::Bool(b) => JsonValue::Bool(b),
        serde_json::Value::Number(n) => match n.as_i64() {
            Some(i) => JsonValue::Int(i),
            None => JsonValue::Null,
        },
        serde_json::Value::String(s) => JsonValue::Str(s),
        serde_json::Value::Array(a) => JsonValue::Arr(a.into_iter().map(convert_json).collect()),
        serde_json::Value::Object(m) => JsonValue::Obj(
            m.into_iter().map(|(k, x)| (k, convert_json(x))).collect(),
        ),
    }
}

/// What parsing the body yields: the provider's document tree, a function of
/// the bytes alone, or nothing when the bytes are not well-formed.
pub uninterp spec fn json_doc_of(bytes: Seq<u8>) -> Option<JsonValue>;

/// Relies on `serde_json::from_slice`: whether the bytes parse, and the tree
/// they parse to, depend on the bytes alone. Numbers outside the `i64` range
/// are carried as null.
#[verifier::external_body]
pub(crate) fn parse_json(body: &[u8]) -> (r: Option<JsonValue>)
    ensures
        r == json_doc_of(body@),
{
    match serde_json::from_slice::<serde_json::Value>(body) {
        Ok(v) => Some(convert_json(v)),
        Err(_) => None,
    }
}

} // verus!

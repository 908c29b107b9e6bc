//! The JSON documents this store reads: legacy account blobs, record
//! payloads and configuration values. A document is held as a plain
//! tree of values, so that field extraction — with its ordered
//! fallbacks between renamed fields — is verified logic. Only the
//! parse itself is delegated to an outside parser.

use vstd::prelude::*;

use crate::text::parse_i64;
use crate::text::spec_parse_i64;
use crate::text::str_eq;

verus! {

/// A parsed JSON document. Numbers are kept as `i64` (this store never
/// writes fractional numbers; anything else parses as `Null`, which
/// readers treat as "unset", just as they treat a missing field).
pub enum JsonValue {
    Null,
    Bool(bool),
    Int(i64),
    Str(String),
    Arr(Vec<JsonValue>),
    Obj(Vec<(String, JsonValue)>),
}

/// The first binding of `key` in an object's field list.
pub open spec fn spec_obj_get(fields: Seq<(String, JsonValue)>, key: Seq<char>) -> Option<
    JsonValue,
>
    decreases fields.len(),
{
    if fields.len() == 0 {
        None
    } else if fields[0].0@ == key {
        Some(fields[0].1)
    } else {
        spec_obj_get(fields.drop_first(), key)
    }
}

/// Field lookup: `None` on anything that is not an object holding `key`.
pub open spec fn spec_get(v: JsonValue, key: Seq<char>) -> Option<JsonValue> {
    match v {
        JsonValue::Obj(fields) => spec_obj_get(fields@, key),
        _ => None,
    }
}

/// The string under `key`, if the field is present and is a string.
pub open spec fn spec_get_str(v: JsonValue, key: Seq<char>) -> Option<Seq<char>> {
    match spec_get(v, key) {
        Some(JsonValue::Str(s)) => Some(s@),
        _ => None,
    }
}

/// The string under `key`, or `default` when absent or not a string.
pub open spec fn spec_str_or(v: JsonValue, key: Seq<char>, default: Seq<char>) -> Seq<char> {
    match spec_get_str(v, key) {
        Some(s) => s,
        None => default,
    }
}

/// The boolean under `key`, or `default` when absent or not a boolean.
pub open spec fn spec_bool_or(v: JsonValue, key: Seq<char>, default: bool) -> bool {
    match spec_get(v, key) {
        Some(JsonValue::Bool(b)) => b,
        _ => default,
    }
}

/// The number under `key`, read from a JSON number or, failing that,
/// from a JSON string holding decimal text — scores have been stored
/// both ways over the years.
pub open spec fn spec_int_or_text_int(v: JsonValue, key: Seq<char>) -> Option<i64> {
    match spec_get(v, key) {
        Some(JsonValue::Int(i)) => Some(i),
        Some(JsonValue::Str(s)) => spec_parse_i64(s@),
        _ => None,
    }
}

impl JsonValue {
    /// Looks up a field of an object, `None` elsewhere.
    pub fn get<'a>(&'a self, key: &str) -> (r: Option<&'a JsonValue>)
        ensures
            match r {
                Some(f) => spec_get(*self, key@) == Some(*f),
                None => spec_get(*self, key@) is None,
            },
    {
        match self {
            JsonValue::Obj(fields) => {
                let n = fields.len();
                let mut i: usize = 0;
                proof {
                    assert(fields@.skip(0) =~= fields@);
                }
                while i < n
                    invariant
                        i <= n == fields@.len(),
                        spec_get(*self, key@) == spec_obj_get(fields@, key@),
                        spec_obj_get(fields@, key@) == spec_obj_get(fields@.skip(i as int), key@),
                    decreases n - i,
                {
                    let p = &fields[i];
                    proof {
                        assert(fields@.skip(i as int)[0] == fields@[i as int]);
                        assert(fields@.skip(i as int).drop_first() =~= fields@.skip(i as int + 1));
                    }
                    if str_eq(p.0.as_str(), key) {
                        proof {
                            assert(spec_obj_get(fields@.skip(i as int), key@) == Some(
                                fields@[i as int].1,
                            ));
                            assert(spec_get(*self, key@) == spec_obj_get(fields@, key@));
                        }
                        return Some(&p.1);
                    }
                    i = i + 1;
                }
                None
            },
            _ => None,
        }
    }

    /// The string under `key`, or `default`.
    pub fn get_str_or(&self, key: &str, default: &str) -> (r: String)
        ensures
            r@ == spec_str_or(*self, key@, default@),
    {
        match self.get(key) {
            Some(f) => match f {
                JsonValue::Str(s) => s.clone(),
                _ => String::from_str(default),
            },
            None => String::from_str(default),
        }
    }

    /// The string under `key`, if present and a string.
    pub fn get_opt_str(&self, key: &str) -> (r: Option<String>)
        ensures
            match r {
                Some(s) => spec_get_str(*self, key@) == Some(s@),
                None => spec_get_str(*self, key@) is None,
            },
    {
        match self.get(key) {
            Some(f) => match f {
                JsonValue::Str(s) => Some(s.clone()),
                _ => None,
            },
            None => None,
        }
    }

    /// The boolean under `key`, or `default`.
    pub fn get_bool_or(&self, key: &str, default: bool) -> (r: bool)
        ensures
            r == spec_bool_or(*self, key@, default),
    {
        match self.get(key) {
            Some(f) => match f {
                JsonValue::Bool(b) => *b,
                _ => default,
            },
            None => default,
        }
    }

    /// The number under `key`, from a number or from decimal text.
    pub fn get_int_or_text_int(&self, key: &str) -> (r: Option<i64>)
        ensures
            r == spec_int_or_text_int(*self, key@),
    {
        match self.get(key) {
            Some(f) => match f {
                JsonValue::Int(i) => Some(*i),
                JsonValue::Str(s) => parse_i64(s),
                _ => None,
            },
            None => None,
        }
    }

    /// The array under `key`, if present and an array.
    pub fn get_arr<'a>(&'a self, key: &str) -> (r: Option<&'a Vec<JsonValue>>)
        ensures
            match r {
                Some(a) => spec_get(*self, key@) == Some(JsonValue::Arr(*a)),
                None => !(spec_get(*self, key@) matches Some(JsonValue::Arr(_))),
            },
    {
        match self.get(key) {
            Some(f) => match f {
                JsonValue::Arr(a) => Some(a),
                _ => None,
            },
            None => None,
        }
    }
}

/// Declares serde_json's value type so the converter below may take
/// it; no verified code looks inside such a value.
#[verifier::external_type_specification]
#[verifier::external_body]
pub struct ExSerdeValue(serde_json::Value);

/// Relies on serde_json's value tree only as a carrier: each variant is
/// translated one-for-one into this crate's document type. Numbers that
/// are not `i64` (this store never writes any) become `Null`; object
/// fields arrive in serde_json's map order.
#[verifier::external_body]
fn json_from_serde(v: &serde_json::Value) -> JsonValue {
    match v {
        serde_json::Value::Null => JsonValue::Null,
        serde_json::Value::Bool(b) => JsonValue::Bool(*b),
        serde_json::Value::Number(n) => match n.as_i64() {
            Some(i) => JsonValue::Int(i),
            None => JsonValue::Null,
        },
        serde_json::Value::String(s) => JsonValue::Str(s.clone()),
        serde_json::Value::Array(a) => JsonValue::Arr(a.iter().map(json_from_serde).collect()),
        serde_json::Value::Object(o) => JsonValue::Obj(
            o.iter().map(|p| (p.0.clone(), json_from_serde(p.1))).collect(),
        ),
    }
}

/// What parsing a JSON text yields: a function of the text alone.
pub uninterp spec fn spec_json_parse(s: Seq<char>) -> Option<JsonValue>;

/// Relies on serde_json::from_str: parses a JSON text, or fails; the
/// outcome depends only on the text.
#[verifier::external_body]
pub fn json_parse(s: &str) -> (r: Option<JsonValue>)
    ensures
        r == spec_json_parse(s@),
{
    match serde_json::from_str::<serde_json::Value>(s) {
        Ok(v) => Some(json_from_serde(&v)),
        Err(_) => None,
    }
}

} // verus!

//! A plain model of the structured payloads the document store returns.
//! Response bodies are parsed by serde_json behind one trusted boundary;
//! everything that reads the parsed tree afterwards is verified here.

use vstd::prelude::*;
use vstd::string::*;

verus! {

/// A structured payload: the library's own JSON tree. Object fields keep
/// the order in which the parser hands them over; numbers outside the
/// signed 64-bit range and fractional numbers are not distinguished from
/// an absent value and become `Null`.
#[derive(Debug)]
pub enum JsonValue {
    Null,
    Bool(bool),
    Int(i64),
    Text(String),
    Array(Vec<JsonValue>),
    Object(Vec<(String, JsonValue)>),
}

/// String equality over views.
pub fn str_eq(a: &str, b: &str) -> (r: bool)
    ensures
        r == (a@ == b@),
{
    let sa = String::from_str(a);
    let sb = String::from_str(b);
    sa == sb
}

/// The first binding of `key` among `pairs`, if any.
pub open spec fn lookup(pairs: Seq<(String, JsonValue)>, key: Seq<char>) -> Option<JsonValue>
    decreases pairs.len(),
{
    if pairs.len() == 0 {
        None
    } else if pairs[0].0@ == key {
        Some(pairs[0].1)
    } else {
        lookup(pairs.drop_first(), key)
    }
}

/// The field `key` of `v`, when `v` is an object that has it.
pub open spec fn field_of(v: JsonValue, key: Seq<char>) -> Option<JsonValue> {
    match v {
        JsonValue::Object(pairs) => lookup(pairs@, key),
        _ => None,
    }
}

/// The text `v` carries, when `v` is a string value.
pub open spec fn text_of(v: JsonValue) -> Option<Seq<char>> {
    match v {
        JsonValue::Text(s) => Some(s@),
        _ => None,
    }
}

/// The integer `v` carries, when `v` is an integer value.
pub open spec fn int_of(v: JsonValue) -> Option<i64> {
    match v {
        JsonValue::Int(n) => Some(n),
        _ => None,
    }
}

/// The elements of `v`, when `v` is an array.
pub open spec fn elements_of(v: JsonValue) -> Option<Seq<JsonValue>> {
    match v {
        JsonValue::Array(items) => Some(items@),
        _ => None,
    }
}

impl JsonValue {
    /// The field `key` of this value, scanning object bindings in order.
    pub fn get_field<'a>(&'a self, key: &str) -> (r: Option<&'a JsonValue>)
        ensures
            match r {
                Some(f) => field_of(*self, key@) == Some(*f),
                None => field_of(*self, key@) is None,
            },
    {
        match self {
            JsonValue::Object(pairs) => {
                let mut i: usize = 0;
                proof {
                    assert(pairs@.skip(0) =~= pairs@);
                }
                while i < pairs.len()
                    invariant
                        i <= pairs@.len(),
                        *self == JsonValue::Object(*pairs),
                        lookup(pairs@, key@) == lookup(pairs@.skip(i as int), key@),
                    decreases pairs@.len() - i,
                {
                    proof {
                        assert(pairs@.skip(i as int)[0] == pairs@[i as int]);
                        assert(pairs@.skip(i as int).drop_first() =~= pairs@.skip(i as int + 1));
                    }
                    let p = &pairs[i];
                    if str_eq(p.0.as_str(), key) {
                        proof {
                            assert(*p == pairs@[i as int]);
                            assert(lookup(pairs@.skip(i as int), key@)
                                == Some(pairs@[i as int].1));
                            assert(field_of(*self, key@) == lookup(pairs@, key@));
                        }
                        return Some(&p.1);
                    }
                    i = i + 1;
                }
                proof {
                    assert(pairs@.skip(i as int) =~= Seq::<(String, JsonValue)>::empty());
                }
                None
            },
            _ => None,
        }
    }

    /// The text this value carries, when it is a string value.
    pub fn as_text<'a>(&'a self) -> (r: Option<&'a String>)
        ensures
            match r {
                Some(s) => text_of(*self) == Some(s@),
                None => text_of(*self) is None,
            },
    {
        match self {
            JsonValue::Text(s) => Some(s),
            _ => None,
        }
    }

    /// The integer this value carries, when it is an integer value.
    pub fn as_int(&self) -> (r: Option<i64>)
        ensures
            r == int_of(*self),
    {
        match self {
            JsonValue::Int(n) => Some(*n),
            _ => None,
        }
    }
}

#[verifier::external_type_specification]
#[verifier::external_body]
pub struct ExValue(serde_json::Value);

/// What parsing one body text yields: for one input the parse has one
/// outcome, whatever process runs it.
pub uninterp spec fn parsed_json(s: Seq<char>) -> Option<JsonValue>;

/// Relies on serde_json::Value: maps each variant of a parsed tree into the
/// library's JSON model, one arm per variant; a number that `as_i64` cannot
/// represent becomes `Null`. This is the recursive arm of `parse_json` below
/// and is called from nowhere else.
#[verifier::external_body]
fn json_value_model(v: &serde_json::Value) -> JsonValue {
    match v {
        serde_json::Value::Null => JsonValue::Null,
        serde_json::Value::Bool(b) => JsonValue::Bool(*b),
        serde_json::Value::Number(n) => match n.as_i64() {
            Some(i) => JsonValue::Int(i),
            None => JsonValue::Null,
        },
        serde_json::Value::String(s) => JsonValue::Text(s.clone()),
        serde_json::Value::Array(items) => JsonValue::Array(
            items.iter().map(json_value_model).collect(),
        ),
        serde_json::Value::Object(fields) => JsonValue::Object(
            fields.iter().map(|(k, f)| (k.clone(), json_value_model(f))).collect(),
        ),
    }
}

/// Relies on serde_json::from_str: parses a response body into the library's
/// JSON model, `None` when the body is not valid JSON. The outcome is a
/// function of the body text alone, named `parsed_json`.
#[verifier::external_body]
pub(crate) fn parse_json(s: &str) -> (r: Option<JsonValue>)
    ensures
        r == parsed_json(s@),
{
    match serde_json::from_str::<serde_json::Value>(s) {
        Ok(v) => Some(json_value_model(&v)),
        Err(_) => None,
    }
}

} // verus!

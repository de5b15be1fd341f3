//! The shape of the structured input that field flattening walks.

use vstd::prelude::*;

use crate::subst::str_eq;

verus! {

/// A JSON-like value.
///
/// Object pairs stand in declaration order, array items by index.  A number
/// is held as the canonical decimal text it was parsed to, so the whole tree
/// is made of plain values.
pub enum JsonValue {
    Null,
    Bool(bool),
    Num(String),
    Str(String),
    Arr(Vec<JsonValue>),
    Obj(Vec<(String, JsonValue)>),
}

impl JsonValue {
    /// Anything but an object or an array.
    pub open spec fn is_scalar(self) -> bool {
        match self {
            JsonValue::Arr(_) => false,
            JsonValue::Obj(_) => false,
            _ => true,
        }
    }
}

/// The value a well-formed JSON text parses to, or nothing where the text is
/// malformed.  Parsing is a fixed function of the text; its definition is the
/// parser's and is not restated here.
pub uninterp spec fn json_of(s: Seq<char>) -> Option<JsonValue>;

#[verifier::external_type_specification]
#[verifier::external_body]
pub struct ExValue(serde_json::Value);

/// Carries a parsed tree over into the library's own shape, variant by
/// variant: a number becomes its canonical decimal text, an object keeps its
/// declared key order (the parser's map preserves insertion order).
/// `parse_json_raw` relies on this conversion moving every part unchanged.
#[verifier::external_body]
fn from_value(v: serde_json::Value) -> JsonValue {
    match v {
        serde_json::Value::Null => JsonValue::Null,
        serde_json::Value::Bool(b) => JsonValue::Bool(b),
        serde_json::Value::Number(n) => JsonValue::Num(n.to_string()),
        serde_json::Value::String(s) => JsonValue::Str(s),
        serde_json::Value::Array(a) => JsonValue::Arr(a.into_iter().map(from_value).collect()),
        serde_json::Value::Object(m) => JsonValue::Obj(
            m.into_iter().map(|(k, w)| (k, from_value(w))).collect(),
        ),
    }
}

/// Relies on serde_json::from_str: whether a text parses as JSON, and the
/// value it parses to, depend on the text alone; a malformed text gives the
/// parser's message.
#[verifier::external_body]
pub(crate) fn parse_json_raw(s: &str) -> (r: Result<JsonValue, String>)
    ensures
        r matches Ok(v) ==> json_of(s@) == Some(v),
        r is Err ==> json_of(s@) is None,
{
    match serde_json::from_str::<serde_json::Value>(s) {
        Ok(v) => Ok(from_value(v)),
        Err(e) => Err(e.to_string()),
    }
}

/// The value under the first pair carrying `key`, where the object holds one.
pub open spec fn obj_lookup(pairs: Seq<(String, JsonValue)>, key: Seq<char>) -> Option<JsonValue>
    decreases pairs.len(),
{
    if pairs.len() == 0 {
        None
    } else if pairs[0].0@ == key {
        Some(pairs[0].1)
    } else {
        obj_lookup(pairs.drop_first(), key)
    }
}

/// Finds the first pair carrying `key`.
pub fn obj_get<'a>(pairs: &'a Vec<(String, JsonValue)>, key: &str) -> (r: Option<&'a JsonValue>)
    ensures
        match r {
            Some(v) => obj_lookup(pairs@, key@) == Some(*v),
            None => obj_lookup(pairs@, key@) is None,
        },
{
    let n = pairs.len();
    let mut i: usize = 0;
    proof {
        assert(pairs@.skip(0) =~= pairs@);
    }
    while i < n
        invariant
            n == pairs@.len(),
            0 <= i <= n,
            obj_lookup(pairs@, key@) == obj_lookup(pairs@.skip(i as int), key@),
        decreases n - i,
    {
        proof {
            assert(pairs@.skip(i as int)[0] == pairs@[i as int]);
            assert(pairs@.skip(i as int).drop_first() =~= pairs@.skip(i as int + 1));
        }
        if str_eq(pairs[i].0.as_str(), key) {
            return Some(&pairs[i].1);
        }
        i += 1;
    }
    proof {
        assert(pairs@.skip(n as int) =~= Seq::<(String, JsonValue)>::empty());
    }
    None
}

/// The text under `key`, where a missing pair reads as the empty text and a
/// pair of any other shape is a type error.
pub open spec fn str_or_empty(pairs: Seq<(String, JsonValue)>, key: Seq<char>) -> Option<
    Seq<char>,
> {
    match obj_lookup(pairs, key) {
        None => Some(Seq::empty()),
        Some(JsonValue::Str(s)) => Some(s@),
        Some(_) => None,
    }
}

/// Reads an optional text-valued pair, defaulting to the empty text.
pub fn get_str_or_empty(pairs: &Vec<(String, JsonValue)>, key: &str) -> (r: Option<String>)
    ensures
        match r {
            Some(s) => str_or_empty(pairs@, key@) == Some(s@),
            None => str_or_empty(pairs@, key@) is None,
        },
{
    match obj_get(pairs, key) {
        None => Some(String::new()),
        Some(JsonValue::Str(s)) => Some(s.clone()),
        Some(_) => None,
    }
}

} // verus!

use vstd::prelude::*;

verus! {

/// A parsed JSON value.
///
/// Numbers are kept as the text that the document wrote for them. An
/// object keeps its members in the order of the document; the top level
/// of a document may name a key more than once, and each occurrence is
/// kept.
#[derive(Debug, PartialEq)]
pub enum JsonValue {
    Null,
    Bool(bool),
    Number(String),
    String(String),
    Array(Vec<JsonValue>),
    Object(Vec<(String, JsonValue)>),
}

/// Whether `v` is the string whose characters are `s`.
pub open spec fn is_string_lit(v: JsonValue, s: Seq<char>) -> bool {
    match v {
        JsonValue::String(t) => t@ == s,
        _ => false,
    }
}

impl JsonValue {
    /// Whether this value is the string `s`.
    pub fn is_str(&self, s: &str) -> (r: bool)
        ensures
            r == is_string_lit(*self, s@),
    {
        match self {
            JsonValue::String(t) => key_is(t, s),
            _ => false,
        }
    }
}

/// Whether the characters of `key` are those of `s`.
pub fn key_is(key: &String, s: &str) -> (r: bool)
    ensures
        r == (key@ == s@),
{
    let lit = s.to_owned();
    *key == lit
}

} // verus!

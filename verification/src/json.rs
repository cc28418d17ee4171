//! JSON values as the catalogue's answers hold them, with the lookups that the
//! record parsers make. A lookup that finds nothing yields `Null`, so that paths
//! can be followed without a test at each step.

use vstd::prelude::*;

verus! {

/// A JSON value. A number carries its value only where it is a whole number
/// from 0 to `u64::MAX`; that is all the catalogue's records are asked for.
#[derive(Debug)]
pub enum Json {
    Null,
    Bool(bool),
    Number(Option<u64>),
    Text(String),
    Array(Vec<Json>),
    Object(Vec<(String, Json)>),
}

/// The value of the first entry under `key`; `Null` where no entry has that key.
pub open spec fn lookup(entries: Seq<(String, Json)>, key: Seq<char>) -> Json
    decreases entries.len(),
{
    if entries.len() == 0 {
        Json::Null
    } else if entries[0].0@ == key {
        entries[0].1
    } else {
        lookup(entries.drop_first(), key)
    }
}

/// The value behind an optional borrow; `Null` behind none.
pub open spec fn or_null(value: Option<&Json>) -> Json {
    match value {
        Some(v) => *v,
        None => Json::Null,
    }
}

/// The characters behind an optional borrowed string.
pub open spec fn opt_str(value: Option<&String>) -> Option<Seq<char>> {
    match value {
        Some(s) => Some(s@),
        None => None,
    }
}

impl Json {
    /// The member `key` of an object; `Null` for a missing key and for a value
    /// that is no object.
    pub open spec fn member(self, key: Seq<char>) -> Json {
        match self {
            Json::Object(entries) => lookup(entries@, key),
            _ => Json::Null,
        }
    }

    /// The element at `i` of an array; `Null` past its end and for a value that
    /// is no array.
    pub open spec fn element(self, i: int) -> Json {
        match self {
            Json::Array(items) => if 0 <= i < items@.len() {
                items@[i]
            } else {
                Json::Null
            },
            _ => Json::Null,
        }
    }

    /// The characters of a string value.
    pub open spec fn text(self) -> Option<Seq<char>> {
        match self {
            Json::Text(s) => Some(s@),
            _ => None,
        }
    }

    /// The value of a number that is a whole number from 0 to `u64::MAX`.
    pub open spec fn unsigned(self) -> Option<u64> {
        match self {
            Json::Number(n) => n,
            _ => None,
        }
    }

    /// The elements of an array.
    pub open spec fn elements(self) -> Option<Seq<Json>> {
        match self {
            Json::Array(items) => Some(items@),
            _ => None,
        }
    }

    /// The member `key` of an object, if it has one.
    pub fn get(&self, key: &str) -> (r: Option<&Json>)
        ensures
            or_null(r) == self.member(key@),
    {
        match self {
            Json::Object(entries) => {
                let wanted = key.to_owned();
                let n = entries.len();
                let mut i: usize = 0;
                assert(entries@.skip(0) =~= entries@);
                while i < n
                    invariant
                        n == entries.len(),
                        i <= n,
                        wanted@ == key@,
                        self.member(key@) == lookup(entries@, key@),
                        lookup(entries@.skip(i as int), key@) == lookup(entries@, key@),
                    decreases n - i,
                {
                    assert(entries@.skip(i as int).drop_first() =~= entries@.skip(i + 1));
                    assert(entries@.skip(i as int)[0] == entries@[i as int]);
                    if entries[i].0 == wanted {
                        return Some(&entries[i].1);
                    }
                    i = i + 1;
                }
                None
            },
            _ => None,
        }
    }

    /// The element at `i` of an array, if it has that many.
    pub fn at(&self, i: usize) -> (r: Option<&Json>)
        ensures
            or_null(r) == self.element(i as int),
    {
        match self {
            Json::Array(items) => if i < items.len() {
                Some(&items[i])
            } else {
                None
            },
            _ => None,
        }
    }

    /// The string of a string value.
    pub fn as_str(&self) -> (r: Option<&String>)
        ensures
            opt_str(r) == self.text(),
    {
        match self {
            Json::Text(s) => Some(s),
            _ => None,
        }
    }

    /// The value of a number that is a whole number from 0 to `u64::MAX`.
    pub fn as_u64(&self) -> (r: Option<u64>)
        ensures
            r == self.unsigned(),
    {
        match self {
            Json::Number(n) => *n,
            _ => None,
        }
    }

    /// The elements of an array.
    pub fn as_array(&self) -> (r: Option<&Vec<Json>>)
        ensures
            match r {
                Some(items) => self.elements() == Some(items@),
                None => self.elements() is None,
            },
    {
        match self {
            Json::Array(items) => Some(items),
            _ => None,
        }
    }
}

/// The member `key` of what a lookup found.
pub fn member_of<'a>(value: Option<&'a Json>, key: &str) -> (r: Option<&'a Json>)
    ensures
        or_null(r) == or_null(value).member(key@),
{
    match value {
        Some(v) => v.get(key),
        None => None,
    }
}

/// The element at `i` of what a lookup found.
pub fn element_of<'a>(value: Option<&'a Json>, i: usize) -> (r: Option<&'a Json>)
    ensures
        or_null(r) == or_null(value).element(i as int),
{
    match value {
        Some(v) => v.at(i),
        None => None,
    }
}

/// The string that a lookup found, if it found one.
pub fn text_of<'a>(value: Option<&'a Json>) -> (r: Option<&'a String>)
    ensures
        opt_str(r) == or_null(value).text(),
{
    match value {
        Some(v) => v.as_str(),
        None => None,
    }
}

/// The array that a lookup found, if it found one.
pub fn array_of<'a>(value: Option<&'a Json>) -> (r: Option<&'a Vec<Json>>)
    ensures
        match r {
            Some(items) => or_null(value).elements() == Some(items@),
            None => or_null(value).elements() is None,
        },
{
    match value {
        Some(v) => v.as_array(),
        None => None,
    }
}

/// What `serde_json::from_slice` reads from `bytes` as one JSON value, brought
/// into this library's `Json`; `None` where it reports an error.
pub uninterp spec fn decoded(bytes: Seq<u8>) -> Option<Json>;

/// Trusted: `serde_json::Value` as a type whose inside is not looked at. It only
/// passes from the decoder to the conversion below.
#[verifier::external_type_specification]
#[verifier::external_body]
pub struct ExValue(serde_json::Value);

/// Trusted: brings a `serde_json::Value` into `Json`, variant by variant. A
/// number keeps what `serde_json::Number::as_u64` gives; an object's entries
/// come in the order in which `serde_json::Map::iter` yields them.
#[verifier::external_body]
fn lift(value: &serde_json::Value) -> Json {
    match value {
        serde_json::Value::Null => Json::Null,
        serde_json::Value::Bool(b) => Json::Bool(*b),
        serde_json::Value::Number(n) => Json::Number(n.as_u64()),
        serde_json::Value::String(s) => Json::Text(s.clone()),
        serde_json::Value::Array(items) => Json::Array(items.iter().map(lift).collect()),
        serde_json::Value::Object(map) => Json::Object(
            map.iter().map(|(k, v)| (k.clone(), lift(v))).collect(),
        ),
    }
}

/// Trusted: `serde_json::from_slice`, read as a `serde_json::Value`. The contract
/// gives the outcome its name and claims nothing else of it; in particular it
/// does not say which bytes are valid JSON.
#[verifier::external_body]
pub(crate) fn decode(bytes: &[u8]) -> (r: Option<Json>)
    ensures
        r == decoded(bytes@),
{
    match serde_json::from_slice::<serde_json::Value>(bytes) {
        Ok(value) => Some(lift(&value)),
        Err(_) => None,
    }
}

} // verus!

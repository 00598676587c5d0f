//! A plain model of a JSON value, as the tool-call reader and the argument
//! preflight see it.
//!
//! Object members keep the order in which the decoder reports them; a key
//! that occurs twice is looked up by its first occurrence.
use vstd::prelude::*;

verus! {

/// A JSON value. Numbers are kept in their textual form.
#[derive(Debug, PartialEq, Eq)]
pub enum Json {
    Null,
    Bool(bool),
    Number(String),
    Str(String),
    Array(Vec<Json>),
    Object(Vec<(String, Json)>),
}

/// The name of the kind of a JSON value, as reported to the user.
pub open spec fn kind_name(j: Json) -> Seq<char> {
    match j {
        Json::Null => "null"@,
        Json::Bool(_) => "bool"@,
        Json::Number(_) => "number"@,
        Json::Str(_) => "string"@,
        Json::Array(_) => "array"@,
        Json::Object(_) => "object"@,
    }
}

/// The value of the first member of `fields` named `key`.
pub open spec fn lookup(fields: Seq<(String, Json)>, key: Seq<char>) -> Option<Json>
    decreases fields.len(),
{
    if fields.len() == 0 {
        None
    } else if fields[0].0@ == key {
        Some(fields[0].1)
    } else {
        lookup(fields.drop_first(), key)
    }
}

/// The value of the first key of `keys` that `fields` holds.
pub open spec fn first_present(fields: Seq<(String, Json)>, keys: Seq<Seq<char>>) -> Option<Json>
    decreases keys.len(),
{
    if keys.len() == 0 {
        None
    } else {
        match lookup(fields, keys[0]) {
            Some(v) => Some(v),
            None => first_present(fields, keys.drop_first()),
        }
    }
}

impl Json {
    /// The name of the kind of this value: `null`, `bool`, `number`,
    /// `string`, `array` or `object`.
    pub fn kind_name(&self) -> (r: &'static str)
        ensures
            r@ == kind_name(*self),
    {
        match self {
            Json::Null => "null",
            Json::Bool(_) => "bool",
            Json::Number(_) => "number",
            Json::Str(_) => "string",
            Json::Array(_) => "array",
            Json::Object(_) => "object",
        }
    }

    /// Whether this value is an object.
    pub fn is_object(&self) -> (r: bool)
        ensures
            r == (*self is Object),
    {
        match self {
            Json::Object(_) => true,
            _ => false,
        }
    }

    /// Whether this value is `null`.
    pub fn is_null(&self) -> (r: bool)
        ensures
            r == (*self is Null),
    {
        match self {
            Json::Null => true,
            _ => false,
        }
    }

    /// An object with no members.
    pub fn empty_object() -> (r: Json)
        ensures
            r matches Json::Object(f) && f@.len() == 0,
    {
        Json::Object(Vec::new())
    }

    /// The value of member `key`, if this is an object that has one.
    pub fn get(&self, key: &str) -> (r: Option<&Json>)
        ensures
            match *self {
                Json::Object(f) => match r {
                    Some(v) => lookup(f@, key@) == Some(*v),
                    None => lookup(f@, key@) is None,
                },
                _ => r is None,
            },
    {
        match self {
            Json::Object(fields) => lookup_member(fields, key),
            _ => None,
        }
    }
}

/// The value of the first member of `fields` named `key`.
pub fn lookup_member<'a>(fields: &'a Vec<(String, Json)>, key: &str) -> (r: Option<&'a Json>)
    ensures
        match r {
            Some(v) => lookup(fields@, key@) == Some(*v),
            None => lookup(fields@, key@) is None,
        },
{
    let k = crate::text::owned(key);
    let mut i: usize = 0;
    assert(fields@.skip(0) =~= fields@);
    while i < fields.len()
        invariant
            i <= fields@.len(),
            k@ == key@,
            lookup(fields@, key@) == lookup(fields@.skip(i as int), key@),
        decreases fields@.len() - i,
    {
        assert(fields@.skip(i as int).drop_first() =~= fields@.skip(i + 1));
        if fields[i].0 == k {
            return Some(&fields[i].1);
        }
        i = i + 1;
    }
    None
}

} // verus!

//! JSON documents as the library reads them, and the parse of a response
//! body into one.

use vstd::prelude::*;
use vstd::string::*;

verus! {

/// What serde_json's `Number::as_i64` and `Number::as_u64` report of a
/// number: the value where it fits the type.
#[derive(Debug, Clone, Copy, PartialEq, Eq, Structural)]
pub struct JsonNumber {
    pub as_i64: Option<i64>,
    pub as_u64: Option<u64>,
}

/// A JSON document. The entries of an object come in the order serde_json
/// iterates them, each key once.
#[derive(Debug)]
pub enum Json {
    Null,
    Bool(bool),
    Number(JsonNumber),
    Str(String),
    Array(Vec<Json>),
    Object(Vec<(String, Json)>),
}

/// The value of the first entry with key `key`.
pub open spec fn entry_value(entries: Seq<(String, Json)>, key: Seq<char>) -> Option<Json>
    decreases entries.len(),
{
    if entries.len() == 0 {
        None
    } else if entries[0].0@ == key {
        Some(entries[0].1)
    } else {
        entry_value(entries.drop_first(), key)
    }
}

impl Json {
    /// The member `key` of an object; `None` for other values.
    pub open spec fn field(self, key: Seq<char>) -> Option<Json> {
        match self {
            Json::Object(entries) => entry_value(entries@, key),
            _ => None,
        }
    }

    /// The characters of a string value.
    pub open spec fn text(self) -> Option<Seq<char>> {
        match self {
            Json::Str(s) => Some(s@),
            _ => None,
        }
    }

    /// A number that fits `i64`.
    pub open spec fn int64(self) -> Option<i64> {
        match self {
            Json::Number(n) => n.as_i64,
            _ => None,
        }
    }

    /// A number that fits `u64`.
    pub open spec fn uint64(self) -> Option<u64> {
        match self {
            Json::Number(n) => n.as_u64,
            _ => None,
        }
    }

    /// A boolean value.
    pub open spec fn boolean(self) -> Option<bool> {
        match self {
            Json::Bool(b) => Some(b),
            _ => None,
        }
    }

    /// The member `key` of an object.
    pub fn get(&self, key: &str) -> (r: Option<&Json>)
        ensures
            match r {
                Some(v) => self.field(key@) == Some(*v),
                None => self.field(key@) is None,
            },
    {
        match self {
            Json::Object(entries) => {
                let k = key.to_string();
                assert(self.field(key@) == entry_value(entries@, key@));
                let mut i: usize = 0;
                assert(entries@.skip(0) =~= entries@);
                while i < entries.len()
                    invariant
                        i <= entries.len(),
                        k@ == key@,
                        self.field(key@) == entry_value(entries@, key@),
                        entry_value(entries@, key@) == entry_value(entries@.skip(i as int), key@),
                    decreases entries.len() - i,
                {
                    assert(entries@.skip(i as int)[0] == entries@[i as int]);
                    if entries[i].0 == k {
                        assert(entries@.skip(i as int).len() > 0);
                        assert(entry_value(entries@.skip(i as int), key@) == Some(
                            entries@[i as int].1,
                        ));
                        return Some(&entries[i].1);
                    }
                    assert(entries@.skip(i as int).drop_first() =~= entries@.skip(i + 1));
                    i = i + 1;
                }
                None
            },
            _ => None,
        }
    }

    /// The text of a string value.
    pub fn as_str(&self) -> (r: Option<&String>)
        ensures
            match r {
                Some(s) => self.text() == Some(s@),
                None => self.text() is None,
            },
    {
        match self {
            Json::Str(s) => Some(s),
            _ => None,
        }
    }

    /// A number that fits `i64`.
    pub fn as_i64(&self) -> (r: Option<i64>)
        ensures
            r == self.int64(),
    {
        match self {
            Json::Number(n) => n.as_i64,
            _ => None,
        }
    }

    /// A number that fits `u64`.
    pub fn as_u64(&self) -> (r: Option<u64>)
        ensures
            r == self.uint64(),
    {
        match self {
            Json::Number(n) => n.as_u64,
            _ => None,
        }
    }

    /// A boolean value.
    pub fn as_bool(&self) -> (r: Option<bool>)
        ensures
            r == self.boolean(),
    {
        match self {
            Json::Bool(b) => Some(*b),
            _ => None,
        }
    }

    /// The elements of an array.
    pub fn as_array(&self) -> (r: Option<&Vec<Json>>)
        ensures
            match r {
                Some(a) => *self == Json::Array(*a),
                None => !(*self is Array),
            },
    {
        match self {
            Json::Array(a) => Some(a),
            _ => None,
        }
    }

    /// Whether the value is `null`.
    pub fn is_null(&self) -> (r: bool)
        ensures
            r == (*self is Null),
    {
        match self {
            Json::Null => true,
            _ => false,
        }
    }
}

/// What `serde_json::from_str::<serde_json::Value>` makes of a text: the
/// document, or the text of its error.
pub uninterp spec fn json_parse(text: Seq<char>) -> Result<Json, Seq<char>>;

/// serde_json's document type, carried through unread.
#[verifier::external_type_specification]
#[verifier::external_body]
pub struct ExJsonValue(serde_json::Value);

/// Rewrites a serde_json document into a [`Json`], variant by variant,
/// recording what `Number::as_i64` and `Number::as_u64` return of each number
/// and taking the object entries in the map's iteration order. It is the
/// conversion half of [`parse_json`], whose contract names the whole result;
/// nothing is stated of it on its own.
#[verifier::external_body]
fn json_of_value(v: serde_json::Value) -> Json {
    match v {
        serde_json::Value::Null => Json::Null,
        serde_json::Value::Bool(b) => Json::Bool(b),
        serde_json::Value::Number(n) => Json::Number(
            JsonNumber { as_i64: n.as_i64(), as_u64: n.as_u64() },
        ),
        serde_json::Value::String(s) => Json::Str(s),
        serde_json::Value::Array(a) => Json::Array(a.into_iter().map(json_of_value).collect()),
        serde_json::Value::Object(m) => Json::Object(
            m.into_iter().map(|(k, v)| (k, json_of_value(v))).collect(),
        ),
    }
}

/// Parses `text` with `serde_json::from_str` into a document; the result is
/// named by [`json_parse`]. On failure, the error's `Display` text.
#[verifier::external_body]
pub fn parse_json(text: &str) -> (r: Result<Json, String>)
    ensures
        match r {
            Ok(j) => json_parse(text@) == Ok::<Json, Seq<char>>(j),
            Err(m) => json_parse(text@) == Err::<Json, Seq<char>>(m@),
        },
{
    match serde_json::from_str::<serde_json::Value>(text) {
        Ok(v) => Ok(json_of_value(v)),
        Err(e) => Err(e.to_string()),
    }
}

} // verus!

//! A plain model of JSON values. Reading a JSON text is left to `serde_json`.

use crate::text::same_text;
use vstd::prelude::*;

verus! {

/// A JSON value.
pub enum Json {
    /// The literal `null`.
    Null,
    /// `true` or `false`.
    Bool(bool),
    /// A number, kept as the text that writes it.
    Number(String),
    /// A string.
    Text(String),
    /// An array: its items in order.
    List(Vec<Json>),
    /// An object: its members, each a key with its value.
    Record(Vec<(String, Json)>),
}

/// The value of the first of `members` whose key is `key`.
pub open spec fn member_of(members: Seq<(String, Json)>, key: Seq<char>) -> Option<Json>
    decreases members.len(),
{
    if members.len() == 0 {
        None
    } else if members[0].0@ == key {
        Some(members[0].1)
    } else {
        member_of(members.drop_first(), key)
    }
}

impl Json {
    /// The member `key` of an object; none for an object without such a
    /// member and for a value that is no object.
    pub open spec fn member(self, key: Seq<char>) -> Option<Json> {
        match self {
            Json::Record(members) => member_of(members@, key),
            _ => None,
        }
    }

    /// The characters of a string; none for a value that is no string.
    pub open spec fn text(self) -> Option<Seq<char>> {
        match self {
            Json::Text(text) => Some(text@),
            _ => None,
        }
    }

    /// The items of an array; none for a value that is no array.
    pub open spec fn items(self) -> Option<Seq<Json>> {
        match self {
            Json::List(items) => Some(items@),
            _ => None,
        }
    }

    /// The characters of the member `key`, where the value is an object and
    /// that member is a string.
    pub open spec fn member_text(self, key: Seq<char>) -> Option<Seq<char>> {
        match self.member(key) {
            Some(value) => value.text(),
            None => None,
        }
    }

    /// Returns the member `key` of an object.
    pub fn get(&self, key: &str) -> (r: Option<&Json>)
        ensures
            match r {
                Some(value) => self.member(key@) == Some(*value),
                None => self.member(key@) is None,
            },
    {
        match self {
            Json::Record(members) => {
                let mut i: usize = 0;
                assert(members@.skip(0) =~= members@);
                while i < members.len()
                    invariant
                        i <= members.len(),
                        self.member(key@) == member_of(members@.skip(i as int), key@),
                    decreases members.len() - i,
                {
                    proof {
                        let rest = members@.skip(i as int);
                        assert(rest[0] == members@[i as int]);
                        assert(rest.drop_first() =~= members@.skip(i + 1));
                    }
                    if same_text(members[i].0.as_str(), key) {
                        return Some(&members[i].1);
                    }
                    i += 1;
                }
                None
            },
            _ => None,
        }
    }

    /// Returns the characters of a string.
    pub fn as_str(&self) -> (r: Option<&str>)
        ensures
            match r {
                Some(text) => self.text() == Some(text@),
                None => self.text() is None,
            },
    {
        match self {
            Json::Text(text) => Some(text.as_str()),
            _ => None,
        }
    }

    /// Returns the items of an array.
    pub fn as_array(&self) -> (r: Option<&Vec<Json>>)
        ensures
            match r {
                Some(items) => self.items() == Some(items@),
                None => self.items() is None,
            },
    {
        match self {
            Json::List(items) => Some(items),
            _ => None,
        }
    }

    /// Reads a JSON text.
    pub fn decode(text: &str) -> (r: Option<Json>)
        ensures
            r == json_document(text@),
    {
        match json_decode(text) {
            Ok(value) => Some(value),
            Err(_) => None,
        }
    }
}

/// `serde_json::Error`: why a text could not be read. It is carried from the
/// decoder to `Json::decode`, which looks at nothing in it.
#[verifier::external_type_specification]
#[verifier::external_body]
pub struct ExJsonError(serde_json::Error);

/// `serde_json::Value`: what `serde_json::from_str` reads a text as. It is
/// carried from the decoder to the copy below, and seen nowhere else.
#[verifier::external_type_specification]
#[verifier::external_body]
pub struct ExJsonValue(serde_json::Value);

/// The value that a JSON text writes, or `None` where the text is not one
/// JSON value.
pub uninterp spec fn json_document(text: Seq<char>) -> Option<Json>;

/// Copies a `serde_json::Value` variant by variant, items and members
/// included: a number becomes the text that `Number`'s `Display` writes, and
/// the members of an object come in the order in which `serde_json::Map`
/// hands them out. Nothing is claimed of the result.
#[verifier::external_body]
fn json_from_value(value: serde_json::Value) -> Json {
    match value {
        serde_json::Value::Null => Json::Null,
        serde_json::Value::Bool(b) => Json::Bool(b),
        serde_json::Value::Number(n) => Json::Number(n.to_string()),
        serde_json::Value::String(s) => Json::Text(s),
        serde_json::Value::Array(a) => Json::List(a.into_iter().map(json_from_value).collect()),
        serde_json::Value::Object(m) => Json::Record(
            m.into_iter().map(|(k, v)| (k, json_from_value(v))).collect(),
        ),
    }
}

/// Reads a text with `serde_json::from_str` as a `serde_json::Value` and
/// copies the value. The contract gives the outcome its name, and claims no
/// more than that the same text is always read alike: the copy on success,
/// and no value where `from_str` reports an error.
#[verifier::external_body]
fn json_decode(text: &str) -> (r: Result<Json, serde_json::Error>)
    ensures
        match r {
            Ok(value) => json_document(text@) == Some(value),
            Err(_) => json_document(text@) is None,
        },
{
    serde_json::from_str::<serde_json::Value>(text).map(json_from_value)
}

} // verus!

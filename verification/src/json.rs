//! JSON documents as values of this library. The reading of JSON text is
//! serde_json's; looking into a document is verified here.

use crate::text::same_text;
use vstd::prelude::*;

verus! {

/// `serde_json::Value`, of which nothing is known here: what it holds is
/// moved into a `Json` before anything looks at it.
#[verifier::external_type_specification]
#[verifier::external_body]
pub struct ExJsonValue(serde_json::Value);

/// `serde_json::Number`, of which nothing is known here: a `Json` carries
/// it, and nothing looks into it.
#[verifier::external_type_specification]
#[verifier::external_body]
pub struct ExJsonNumber(serde_json::Number);

/// `serde_json::Error`, of which nothing is known here: that there is one
/// says that the text was rejected.
#[verifier::external_type_specification]
#[verifier::external_body]
pub struct ExJsonError(serde_json::Error);

/// A JSON document. An object holds its members in the order in which
/// serde_json's map hands them out; a number stays as serde_json read it.
#[derive(Debug, PartialEq)]
pub enum Json {
    Null,
    Bool(bool),
    Number(serde_json::Number),
    Text(String),
    Array(Vec<Json>),
    Object(Vec<(String, Json)>),
}

/// The document that serde_json reads from `text`, or `None` where it
/// rejects the text.
pub uninterp spec fn json_document(text: Seq<char>) -> Option<Json>;

/// The value of the first of `members` that is named `key`.
pub open spec fn find_member(members: Seq<(String, Json)>, key: Seq<char>) -> Option<Json>
    decreases members.len(),
{
    if members.len() == 0 {
        None
    } else if members[0].0@ == key {
        Some(members[0].1)
    } else {
        find_member(members.skip(1), key)
    }
}

impl Json {
    /// The member named `key`, where this is an object that has one.
    pub open spec fn member(self, key: Seq<char>) -> Option<Json> {
        match self {
            Json::Object(members) => find_member(members@, key),
            _ => None,
        }
    }

    /// The characters, where this is a string.
    pub open spec fn text(self) -> Option<Seq<char>> {
        match self {
            Json::Text(s) => Some(s@),
            _ => None,
        }
    }

    /// The elements, where this is an array.
    pub open spec fn elements(self) -> Option<Seq<Json>> {
        match self {
            Json::Array(items) => Some(items@),
            _ => None,
        }
    }

    /// The string at the member named `key`, where this is an object that has
    /// such a member and it is a string.
    pub open spec fn text_at(self, key: Seq<char>) -> Option<Seq<char>> {
        match self.member(key) {
            Some(value) => value.text(),
            None => None,
        }
    }

    /// Looks up the member named `key`. A value that is no object has none.
    pub fn get(&self, key: &str) -> (found: Option<&Json>)
        ensures
            match found {
                Some(value) => self.member(key@) == Some(*value),
                None => self.member(key@) is None,
            },
    {
        match self {
            Json::Object(members) => {
                let mut i: usize = 0;
                assert(members@.skip(0) =~= members@);
                while i < members.len()
                    invariant
                        0 <= i <= members.len(),
                        self.member(key@) == find_member(members@.skip(i as int), key@),
                    decreases members.len() - i,
                {
                    let ghost rest = members@.skip(i as int);
                    assert(rest[0] == members@[i as int]);
                    assert(rest.skip(1) =~= members@.skip(i + 1));
                    if same_text(members[i].0.as_str(), key) {
                        assert(find_member(rest, key@) == Some(rest[0].1));
                        return Some(&members[i].1);
                    }
                    i = i + 1;
                }
                None
            },
            _ => None,
        }
    }

    /// The string that this value is, if it is one.
    pub fn as_text(&self) -> (found: Option<&String>)
        ensures
            match found {
                Some(s) => self.text() == Some(s@),
                None => self.text() is None,
            },
    {
        match self {
            Json::Text(s) => Some(s),
            _ => None,
        }
    }

    /// The elements of the array that this value is, if it is one.
    pub fn as_array(&self) -> (found: Option<&Vec<Json>>)
        ensures
            match found {
                Some(items) => self.elements() == Some(items@),
                None => self.elements() is None,
            },
    {
        match self {
            Json::Array(items) => Some(items),
            _ => None,
        }
    }

    /// Looks up the string at the member named `key`.
    pub fn get_text(&self, key: &str) -> (found: Option<&String>)
        ensures
            match found {
                Some(s) => self.text_at(key@) == Some(s@),
                None => self.text_at(key@) is None,
            },
    {
        match self.get(key) {
            Some(value) => value.as_text(),
            None => None,
        }
    }
}

/// Moves what a `serde_json::Value` holds into a `Json`, variant by variant:
/// the members of an object in the order of the map's iterator, a number as
/// it is.
#[verifier::external_body]
fn json_from_value(value: serde_json::Value) -> Json {
    match value {
        serde_json::Value::Null => Json::Null,
        serde_json::Value::Bool(b) => Json::Bool(b),
        serde_json::Value::Number(n) => Json::Number(n),
        serde_json::Value::String(s) => Json::Text(s),
        serde_json::Value::Array(a) => Json::Array(a.into_iter().map(json_from_value).collect()),
        serde_json::Value::Object(m) => Json::Object(
            m.into_iter().map(|(k, v)| (k, json_from_value(v))).collect(),
        ),
    }
}

/// Calls `serde_json::from_str` for a `serde_json::Value`, and has
/// `json_from_value` move what was read into a `Json`. The contract claims
/// that the outcome depends on the text alone: its name is `json_document`,
/// which is `None` where serde_json returns an error.
#[verifier::external_body]
fn parse_json(text: &str) -> (parsed: Result<Json, serde_json::Error>)
    ensures
        match parsed {
            Ok(document) => json_document(text@) == Some(document),
            Err(_) => json_document(text@) is None,
        },
{
    serde_json::from_str::<serde_json::Value>(text).map(json_from_value)
}

/// Reads a JSON document from `text`.
pub fn read_json(text: &str) -> (document: Option<Json>)
    ensures
        document == json_document(text@),
{
    match parse_json(text) {
        Ok(document) => Some(document),
        Err(_) => None,
    }
}

} // verus!

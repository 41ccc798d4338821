//! A JSON document as the library reads it, parsed by serde_json.

use vstd::prelude::*;
use crate::text::str_eq;

verus! {

#[verifier::external_type_specification]
#[verifier::external_body]
pub struct ExJsonValue(serde_json::Value);

/// A JSON value. Numbers keep the decimal text serde_json prints for them.
#[derive(Debug)]
pub enum Json {
    Null,
    Bool(bool),
    Num(String),
    Str(String),
    Arr(Vec<Json>),
    Obj(Vec<(String, Json)>),
}

/// The document serde_json reads from `text`, or its error message when
/// `text` is not JSON.
pub uninterp spec fn json_of_text(text: Seq<char>) -> Result<Json, Seq<char>>;

/// A parse result with the error as its characters.
pub open spec fn parsed_view(r: Result<Json, String>) -> Result<Json, Seq<char>> {
    match r {
        Ok(j) => Ok(j),
        Err(e) => Err(e@),
    }
}

/// Converts serde_json's tree into the library's, variant for variant.
#[verifier::external_body]
fn json_from_value(v: serde_json::Value) -> Json {
    match v {
        serde_json::Value::Null => Json::Null,
        serde_json::Value::Bool(b) => Json::Bool(b),
        serde_json::Value::Number(n) => Json::Num(n.to_string()),
        serde_json::Value::String(s) => Json::Str(s),
        serde_json::Value::Array(a) => Json::Arr(a.into_iter().map(json_from_value).collect()),
        serde_json::Value::Object(o) => Json::Obj(
            o.into_iter().map(|(k, v)| (k, json_from_value(v))).collect(),
        ),
    }
}

/// Relies on `serde_json::from_str` into `serde_json::Value`: the document,
/// or the error's message, depends on the text alone.
#[verifier::external_body]
pub(crate) fn parse_json(text: &str) -> (r: Result<Json, String>)
    ensures
        parsed_view(r) == json_of_text(text@),
{
    serde_json::from_str::<serde_json::Value>(text).map(json_from_value).map_err(|e| e.to_string())
}

/// The text serde_json writes for a document, pretty-printed.
pub uninterp spec fn json_text_of(doc: Json) -> Seq<char>;

/// Converts the library's tree into serde_json's, variant for variant.
#[verifier::external_body]
fn json_to_value(j: &Json) -> serde_json::Value {
    match j {
        Json::Null => serde_json::Value::Null,
        Json::Bool(b) => serde_json::Value::Bool(*b),
        Json::Num(t) => t.parse::<serde_json::Number>().map_or(serde_json::Value::Null, serde_json::Value::Number),
        Json::Str(s) => serde_json::Value::String(s.clone()),
        Json::Arr(a) => serde_json::Value::Array(a.iter().map(json_to_value).collect()),
        Json::Obj(o) => serde_json::Value::Object(
            o.iter().map(|(k, v)| (k.clone(), json_to_value(v))).collect(),
        ),
    }
}

/// Relies on `serde_json::to_string_pretty` of a `serde_json::Value`: the
/// text depends on the document alone.
#[verifier::external_body]
pub(crate) fn json_text(doc: &Json) -> (r: String)
    ensures
        r@ == json_text_of(*doc),
{
    serde_json::to_string_pretty(&json_to_value(doc)).unwrap_or_default()
}

/// The first index at or after `i` of an entry keyed `key`.
pub open spec fn entry_from(entries: Seq<(String, Json)>, key: Seq<char>, i: int) -> Option<int>
    decreases entries.len() - i,
{
    if 0 <= i < entries.len() {
        if entries[i].0@ == key {
            Some(i)
        } else {
            entry_from(entries, key, i + 1)
        }
    } else {
        None
    }
}

impl Json {
    /// The member `key` of an object.
    pub open spec fn member(self, key: Seq<char>) -> Option<Json> {
        match self {
            Json::Obj(entries) => match entry_from(entries@, key, 0) {
                Some(i) => Some(entries@[i].1),
                None => None,
            },
            _ => None,
        }
    }

    /// The member `key` of an object.
    pub fn get(&self, key: &str) -> (r: Option<&Json>)
        ensures
            match r {
                Some(v) => self.member(key@) == Some(*v),
                None => self.member(key@) is None,
            },
    {
        match self {
            Json::Obj(entries) => {
                let mut i: usize = 0;
                while i < entries.len()
                    invariant
                        i <= entries@.len(),
                        entry_from(entries@, key@, i as int) == entry_from(entries@, key@, 0),
                        self.member(key@) == match entry_from(entries@, key@, 0) {
                            Some(j) => Some(entries@[j].1),
                            None => None,
                        },
                    decreases entries@.len() - i,
                {
                    let entry = &entries[i];
                    if str_eq(entry.0.as_str(), key) {
                        assert(entries@[i as int].0@ == key@);
                        assert(entry_from(entries@, key@, i as int) == Some(i as int));
                        return Some(&entry.1);
                    }
                    i = i + 1;
                }
                None
            },
            _ => None,
        }
    }

    /// The array member `key`.
    pub open spec fn array_member(self, key: Seq<char>) -> Option<Vec<Json>> {
        match self.member(key) {
            Some(Json::Arr(items)) => Some(items),
            _ => None,
        }
    }

    /// The string member `key`, or empty when it is missing or not a string.
    pub open spec fn str_member(self, key: Seq<char>) -> Seq<char> {
        match self.member(key) {
            Some(Json::Str(s)) => s@,
            _ => Seq::empty(),
        }
    }

    /// The array member `key`.
    pub fn get_array(&self, key: &str) -> (r: Option<&Vec<Json>>)
        ensures
            match self.array_member(key@) {
                Some(items) => r == Some(&items),
                None => r is None,
            },
    {
        match self.get(key) {
            Some(Json::Arr(items)) => Some(items),
            _ => None,
        }
    }

    /// The string member `key`, or empty when it is missing or not a string.
    pub fn get_str(&self, key: &str) -> (r: String)
        ensures
            r@ == self.str_member(key@),
    {
        match self.get(key) {
            Some(Json::Str(s)) => s.clone(),
            _ => String::new(),
        }
    }
}

} // verus!

//! Values in JSON, as the serde_json crate reads and writes them.

use crate::catalog::{Json, JsonView};
use crate::text;
use vstd::prelude::*;

verus! {

/// A value of the serde_json crate.
#[verifier::external_type_specification]
#[verifier::external_body]
pub struct ExValue(serde_json::Value);

/// The list of texts that a text stands for, as the serde_json crate reads it; `None` where
/// it stands for anything else.
pub uninterp spec fn json_texts(raw: Seq<char>) -> Option<Seq<Seq<char>>>;

/// The value that a text stands for, as the serde_json crate reads it; `None` where it
/// stands for none.
pub uninterp spec fn json_value(raw: Seq<char>) -> Option<JsonView>;

/// What a value of the serde_json crate holds.
pub uninterp spec fn value_holds(value: serde_json::Value) -> JsonView;

/// `serde_json::from_str` for a list of texts. What it gives depends on the text alone; how
/// it reads is the grammar of JSON, and is named here, not written out.
#[verifier::external_body]
fn parse_texts(raw: &str) -> (r: Option<Vec<String>>)
    ensures
        match r {
            Some(list) => json_texts(raw@) == Some(text::texts(list@)),
            None => json_texts(raw@) is None,
        },
{
    serde_json::from_str(raw).ok()
}

/// `serde_json::to_string` for a list of texts: a text that reads back as that list.
#[verifier::external_body]
fn texts_json(list: &Vec<String>) -> (r: String)
    ensures
        json_texts(r@) == Some(text::texts(list@)),
{
    serde_json::to_string(list).unwrap_or_default()
}

/// `serde_json::from_str` for any value. What it gives depends on the text alone.
#[verifier::external_body]
fn parse_value(raw: &str) -> (r: Option<serde_json::Value>)
    ensures
        match r {
            Some(value) => json_value(raw@) == Some(value_holds(value)),
            None => json_value(raw@) is None,
        },
{
    serde_json::from_str(raw).ok()
}

/// What a `serde_json::Value` holds, variant for variant. A number is taken by its digits,
/// as `serde_json::Number` writes them, and the fields of an object in the order in which
/// `serde_json::Map` keeps them.
#[verifier::external_body]
fn json_of(value: &serde_json::Value) -> (r: Json)
    ensures
        r@ == value_holds(*value),
{
    match value {
        serde_json::Value::Null => Json::Null,
        serde_json::Value::Bool(flag) => Json::Bool(*flag),
        serde_json::Value::Number(number) => Json::Number(number.to_string()),
        serde_json::Value::String(text) => Json::Text(text.clone()),
        serde_json::Value::Array(items) => Json::List(items.iter().map(json_of).collect()),
        serde_json::Value::Object(fields) => Json::Object(
            fields.iter().map(|(name, value)| (name.clone(), json_of(value))).collect(),
        ),
    }
}

/// The list of texts that a text stands for; anything else stands for an empty one.
pub open spec fn listed_texts(raw: Seq<char>) -> Seq<Seq<char>> {
    match json_texts(raw) {
        Some(list) => list,
        None => Seq::empty(),
    }
}

/// Reads a list of texts.
pub fn read_texts(raw: &str) -> (r: Vec<String>)
    ensures
        text::texts(r@) == listed_texts(raw@),
{
    match parse_texts(raw) {
        Some(list) => list,
        None => {
            let r: Vec<String> = Vec::new();
            assert(text::texts(r@) =~= Seq::empty());
            r
        },
    }
}

/// Writes a list of texts so that it reads back as it is.
pub fn write_texts(list: &Vec<String>) -> (r: String)
    ensures
        json_texts(r@) == Some(text::texts(list@)),
{
    texts_json(list)
}

/// Reads a value, where the text stands for one.
pub fn read_value(raw: &str) -> (r: Option<Json>)
    ensures
        match r {
            Some(value) => json_value(raw@) == Some(value@),
            None => json_value(raw@) is None,
        },
{
    match parse_value(raw) {
        Some(value) => Some(json_of(&value)),
        None => None,
    }
}

} // verus!

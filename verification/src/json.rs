//! Reads single values out of a JSON document.
use vstd::prelude::*;

use crate::numbers::Double;

verus! {

/// What stands at a place of a document.
#[derive(Debug)]
pub enum JsonNode {
    /// Nothing: the document has no such place.
    Missing,
    Null,
    Bool(bool),
    /// A number, as a floating-point number where it has a value as one.
    Number(Option<Double>),
    Text(String),
    /// A list of so many entries.
    List(usize),
    Object,
}

/// The value of a [`JsonNode`].
#[verifier::ext_equal]
pub enum JsonNodeModel {
    Missing,
    Null,
    Bool(bool),
    Number(Option<Double>),
    Text(Seq<char>),
    List(usize),
    Object,
}

impl View for JsonNode {
    type V = JsonNodeModel;

    open spec fn view(&self) -> JsonNodeModel {
        match *self {
            JsonNode::Missing => JsonNodeModel::Missing,
            JsonNode::Null => JsonNodeModel::Null,
            JsonNode::Bool(on) => JsonNodeModel::Bool(on),
            JsonNode::Number(double) => JsonNodeModel::Number(double),
            JsonNode::Text(text) => JsonNodeModel::Text(text@),
            JsonNode::List(count) => JsonNodeModel::List(count),
            JsonNode::Object => JsonNodeModel::Object,
        }
    }
}

/// What stands at a place of a document, or why the text is no document.
pub uninterp spec fn json_node(text: Seq<char>, pointer: Seq<char>) -> Result<
    JsonNodeModel,
    Seq<char>,
>;

/// `serde_json::Value::pointer` on the document that the text is, one variant
/// of the result for each of `serde_json::Value`; or the words of the
/// `serde_json::Error` that says why the text is no document. The result is a
/// function of both texts; what it is for given ones is not stated.
#[verifier::external_body]
pub(crate) fn json_at(text: &str, pointer: &str) -> (r: Result<JsonNode, String>)
    ensures
        match r {
            Ok(node) => json_node(text@, pointer@) == Ok::<JsonNodeModel, Seq<char>>(node@),
            Err(reason) => json_node(text@, pointer@) == Err::<JsonNodeModel, Seq<char>>(reason@),
        },
{
    let document: serde_json::Value = serde_json::from_str(text).map_err(|e| e.to_string())?;
    Ok(match document.pointer(pointer) {
        None => JsonNode::Missing,
        Some(serde_json::Value::Null) => JsonNode::Null,
        Some(serde_json::Value::Bool(on)) => JsonNode::Bool(*on),
        Some(serde_json::Value::Number(number)) => JsonNode::Number(
            number.as_f64().map(|value| Double { bits: value.to_bits() }),
        ),
        Some(serde_json::Value::String(text)) => JsonNode::Text(text.clone()),
        Some(serde_json::Value::Array(items)) => JsonNode::List(items.len()),
        Some(serde_json::Value::Object(_)) => JsonNode::Object,
    })
}

/// What stands at a place of a text that may be no document.
pub open spec fn node_at(text: Seq<char>, pointer: Seq<char>) -> JsonNodeModel {
    match json_node(text, pointer) {
        Ok(node) => node,
        Err(_) => JsonNodeModel::Missing,
    }
}

/// What stands at a place of the text, which may be no document.
pub fn read_node(text: &str, pointer: &str) -> (r: JsonNode)
    ensures
        r@ == node_at(text@, pointer@),
{
    match json_at(text, pointer) {
        Ok(node) => node,
        Err(_) => JsonNode::Missing,
    }
}

/// Why a text is no document, if it is none.
pub open spec fn document_fault(text: Seq<char>) -> Option<Seq<char>> {
    match json_node(text, ""@) {
        Ok(_) => None,
        Err(reason) => Some(reason),
    }
}

/// Why the text is no document, if it is none.
pub fn check_document(text: &str) -> (r: Option<String>)
    ensures
        match r {
            Some(reason) => document_fault(text@) == Some(reason@),
            None => document_fault(text@) is None,
        },
{
    match json_at(text, "") {
        Ok(_) => None,
        Err(reason) => Some(reason),
    }
}

/// The value of what was read, or the words that say why it could not be.
pub open spec fn reading<T: View>(r: Result<T, String>) -> Result<T::V, Seq<char>> {
    match r {
        Ok(value) => Ok(value@),
        Err(reason) => Err(reason@),
    }
}

} // verus!

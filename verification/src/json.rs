//! The resolver's JSON document tree, and the trusted boundary to serde_json,
//! which parses config text into that tree and renders an opaque document
//! back to its canonical compact text.
use vstd::prelude::*;

use serde_json::Value as SerdeJsonValue;

verus! {

/// A parsed JSON document.
///
/// Numbers are split the way the config grammar reads them: a non-negative
/// integer, a negative integer, or any other number held as the bits of its
/// 64-bit IEEE-754 value together with its canonical decimal text. Object
/// fields keep the order in which the parser hands them over.
#[derive(Debug, PartialEq)]
pub enum JsonNode {
    Null,
    Bool(bool),
    UInt(u64),
    Int(i64),
    Float { bits: u64, text: String },
    Text(String),
    Array(Vec<JsonNode>),
    Object(Vec<(String, JsonNode)>),
}

#[verifier::external_type_specification]
#[verifier::external_body]
pub struct ExJsonValue(SerdeJsonValue);

#[verifier::external_type_specification]
#[verifier::external_body]
pub struct ExJsonError(serde_json::Error);

#[verifier::external_type_specification]
#[verifier::external_body]
pub struct ExJsonNumber(serde_json::Number);

/// The document tree that parsing the given text yields, or `None` when the
/// text is not valid JSON. Parsing is a function of the text alone.
pub uninterp spec fn parsed_json_of(text: Seq<char>) -> Option<JsonNode>;

/// The canonical compact text of a document, as its parser's serializer
/// renders it: a function of the document alone.
pub uninterp spec fn json_text_of(node: JsonNode) -> Seq<u8>;

/// Relies on serde_json::Number's accessors `as_u64`, `as_i64`, `as_f64`
/// and its `Display`: classifies a parsed number the way serde_json stores
/// it — non-negative integer, negative integer, or any other number as its
/// 64-bit pattern and canonical text. Used only by [`node_of`].
#[verifier::external_body]
fn num_node_of(n: &serde_json::Number) -> JsonNode {
    match (n.as_u64(), n.as_i64()) {
        (Some(u), _) => JsonNode::UInt(u),
        (None, Some(i)) => JsonNode::Int(i),
        _ => JsonNode::Float { bits: n.as_f64().map(|x| x.to_bits()).unwrap_or(0), text: n.to_string() },
    }
}

/// Relies on serde_json::Value's shape alone: reshapes serde_json's
/// document tree into [`JsonNode`], moving each variant's payload. Used
/// only by [`parse_json`].
#[verifier::external_body]
fn node_of(v: &SerdeJsonValue) -> JsonNode {
    match v {
        SerdeJsonValue::Null => JsonNode::Null,
        SerdeJsonValue::Bool(b) => JsonNode::Bool(*b),
        SerdeJsonValue::Number(n) => num_node_of(n),
        SerdeJsonValue::String(s) => JsonNode::Text(s.clone()),
        SerdeJsonValue::Array(a) => JsonNode::Array(a.iter().map(node_of).collect()),
        SerdeJsonValue::Object(m) => JsonNode::Object(
            m.iter().map(|(k, x)| (k.clone(), node_of(x))).collect(),
        ),
    }
}

/// Relies on serde_json::from_str::<serde_json::Value>: returns `Ok` exactly
/// on valid JSON text, and parses deterministically; the tree is reshaped by
/// [`node_of`].
#[verifier::external_body]
pub(crate) fn parse_json(s: &str) -> (r: Result<JsonNode, serde_json::Error>)
    ensures
        match r {
            Ok(n) => parsed_json_of(s@) == Some(n),
            Err(_) => parsed_json_of(s@) is None,
        },
{
    match serde_json::from_str::<SerdeJsonValue>(s) {
        Ok(v) => Ok(node_of(&v)),
        Err(e) => Err(e),
    }
}

/// Relies on serde_json's `Deserialize` for `Number` and the `From`
/// conversions of `serde_json::Value`: rebuilds serde_json's tree from a
/// [`JsonNode`], moving each variant's payload. Used only by [`json_to_vec`].
#[verifier::external_body]
fn value_of_node(n: &JsonNode) -> SerdeJsonValue {
    match n {
        JsonNode::Null => SerdeJsonValue::Null,
        JsonNode::Bool(b) => SerdeJsonValue::Bool(*b),
        JsonNode::UInt(u) => SerdeJsonValue::Number(serde_json::Number::from(*u)),
        JsonNode::Int(i) => SerdeJsonValue::Number(serde_json::Number::from(*i)),
        JsonNode::Float { bits: _, text } => serde_json::from_str(text).map(
            SerdeJsonValue::Number,
        ).unwrap_or(SerdeJsonValue::Null),
        JsonNode::Text(s) => SerdeJsonValue::String(s.clone()),
        JsonNode::Array(a) => SerdeJsonValue::Array(a.iter().map(value_of_node).collect()),
        JsonNode::Object(m) => SerdeJsonValue::Object(
            m.iter().map(|(k, x)| (k.clone(), value_of_node(x))).collect(),
        ),
    }
}

/// Relies on serde_json::to_vec: renders a document as its canonical compact
/// text, a deterministic function of the document; serialization of a plain
/// document cannot fail. The tree is rebuilt by [`value_of_node`].
#[verifier::external_body]
pub(crate) fn json_to_vec(n: &JsonNode) -> (r: Vec<u8>)
    ensures
        r@ == json_text_of(*n),
{
    serde_json::to_vec(&value_of_node(n)).unwrap()
}

} // verus!

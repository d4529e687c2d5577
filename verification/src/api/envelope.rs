//! The frame that all documents of the API share.

use crate::document::{keyed_entries, mapping_of, text_at};
use crate::yaml::{dict_value, error_text, from_text, parsed_node, text_value, value_node, Node};
use vstd::prelude::*;
use vstd::string::*;

verus! {

/// The API version that every document names.
pub const API_VERSION: &'static str = "mistletoe.dev/v1alpha1";

pub open spec fn api_version() -> Seq<char> {
    "mistletoe.dev/v1alpha1"@
}

/// Why a document could not be written or read.
#[derive(Debug)]
pub enum EnvelopeError {
    /// The text is no YAML; the message is the parser's.
    Parse(String),
    /// The document could not be written as YAML; the message is the writer's.
    Emit(String),
    /// The text is YAML of another shape than the document asked for; the message says
    /// where.
    Malformed(String),
}

/// The kinds of [`EnvelopeError`], without their messages.
pub enum EnvelopeFault {
    Parse,
    Emit,
    Malformed,
}

impl EnvelopeError {
    pub open spec fn fault(self) -> EnvelopeFault {
        match self {
            EnvelopeError::Parse(_) => EnvelopeFault::Parse,
            EnvelopeError::Emit(_) => EnvelopeFault::Emit,
            EnvelopeError::Malformed(_) => EnvelopeFault::Malformed,
        }
    }

    pub open spec fn message_text(self) -> Seq<char> {
        match self {
            EnvelopeError::Parse(m) => m@,
            EnvelopeError::Emit(m) => m@,
            EnvelopeError::Malformed(m) => m@,
        }
    }

    /// The text shown to the user.
    pub fn message(&self) -> (r: String)
        ensures
            r@ == self.message_text(),
    {
        match self {
            EnvelopeError::Parse(m) => m.clone(),
            EnvelopeError::Emit(m) => m.clone(),
            EnvelopeError::Malformed(m) => m.clone(),
        }
    }
}

/// A document of the API: version, kind, and the body under its key.
pub open spec fn envelope(kind: Seq<char>, body_key: Seq<char>, body: Node) -> Node {
    Node::Dict(
        seq![
            (Node::Text("apiVersion"@), Node::Text(api_version())),
            (Node::Text("kind"@), Node::Text(kind)),
            (Node::Text(body_key), body),
        ],
    )
}

/// Whether a mapping names a version and a kind, as every document of the API must.
pub open spec fn is_framed(top: Seq<(Node, Node)>) -> bool {
    text_at(top, "apiVersion"@) is Some && text_at(top, "kind"@) is Some
}

/// The key of a body differs from the two keys of the frame.
pub open spec fn is_body_key(key: Seq<char>) -> bool {
    key != "apiVersion"@ && key != "kind"@
}

/// Builds a document of the API.
pub(crate) fn envelope_value(kind: &str, body_key: &str, body: serde_yaml::Value) -> (v: serde_yaml::Value)
    requires
        is_body_key(body_key@),
    ensures
        value_node(v) == envelope(kind@, body_key@, value_node(body)),
{
    let mut fields: Vec<(String, serde_yaml::Value)> = Vec::new();
    fields.push((String::from_str("apiVersion"), text_value(API_VERSION)));
    fields.push((String::from_str("kind"), text_value(kind)));
    fields.push((String::from_str(body_key), body));
    proof {
        reveal_strlit("apiVersion");
        reveal_strlit("kind");
        assert("apiVersion"@.len() != "kind"@.len());
    }
    let m = mapping_of(fields);
    proof {
        assert(keyed_entries(fields@) =~= seq![
            (Node::Text("apiVersion"@), Node::Text(api_version())),
            (Node::Text("kind"@), Node::Text(kind@)),
            (Node::Text(body_key@), value_node(body)),
        ]);
    }
    dict_value(m)
}

/// Reads the one document of a text.
pub fn read_document(text: &str) -> (r: Result<serde_yaml::Value, EnvelopeError>)
    ensures
        match r {
            Ok(v) => parsed_node(text@) == Some(value_node(v)),
            Err(e) => parsed_node(text@) is None && e is Parse,
        },
{
    match from_text(text) {
        Ok(v) => Ok(v),
        Err(e) => Err(EnvelopeError::Parse(error_text(&e))),
    }
}

} // verus!

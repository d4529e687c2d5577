//! The output of a package in its earliest form: one text, tagged as success or failure.

use crate::api::envelope::EnvelopeError;
use crate::document::{keyed_entries, mapping_of, text_at, text_under};
use crate::text::str_eq;
use crate::yaml::{
    dict_value, emitted_text, error_text, from_text, parsed_node, shape_of, text_value, to_text,
    Node, Shape,
};
use vstd::prelude::*;
use vstd::string::*;

verus! {

/// The output of a package: the YAML that it rendered, or the message of its failure.
#[derive(Clone, Debug, PartialEq, Eq)]
pub enum MistOutput {
    /// The YAML that the package rendered; written with the tag `Ok`.
    Rendered(String),
    /// The message of the failure; written with the tag `Err`.
    Failed(String),
}

pub open spec fn output_view(o: MistOutput) -> Result<Seq<char>, Seq<char>> {
    match o {
        MistOutput::Rendered(v) => Ok(v@),
        MistOutput::Failed(v) => Err(v@),
    }
}

/// The document for an output: the tag under `type`, the text under `value`.
pub open spec fn output_document(o: Result<Seq<char>, Seq<char>>) -> Node {
    match o {
        Ok(v) => Node::Dict(
            seq![
                (Node::Text("type"@), Node::Text("Ok"@)),
                (Node::Text("value"@), Node::Text(v)),
            ],
        ),
        Err(v) => Node::Dict(
            seq![
                (Node::Text("type"@), Node::Text("Err"@)),
                (Node::Text("value"@), Node::Text(v)),
            ],
        ),
    }
}

/// The output that a document holds, `None` where the document has another shape.
pub open spec fn read_output(doc: Node) -> Option<Result<Seq<char>, Seq<char>>> {
    match doc {
        Node::Dict(top) => match (text_at(top, "type"@), text_at(top, "value"@)) {
            (Some(tag), Some(v)) => if tag == "Ok"@ {
                Some(Ok(v))
            } else if tag == "Err"@ {
                Some(Err(v))
            } else {
                None
            },
            _ => None,
        },
        _ => None,
    }
}

impl MistOutput {
    /// Writes the output as its YAML document.
    pub fn serialize(&self) -> (r: Result<String, EnvelopeError>)
        ensures
            match r {
                Ok(s) => emitted_text(output_document(output_view(*self))) == Some(s@),
                Err(e) => emitted_text(output_document(output_view(*self))) is None && e is Emit,
            },
    {
        let mut fields: Vec<(String, serde_yaml::Value)> = Vec::new();
        match self {
            MistOutput::Rendered(v) => {
                fields.push((String::from_str("type"), text_value("Ok")));
                fields.push((String::from_str("value"), text_value(v.as_str())));
            },
            MistOutput::Failed(v) => {
                fields.push((String::from_str("type"), text_value("Err")));
                fields.push((String::from_str("value"), text_value(v.as_str())));
            },
        }
        proof {
            reveal_strlit("type");
            reveal_strlit("value");
            assert("type"@.len() != "value"@.len());
            assert(keyed_entries(fields@) =~= output_document(output_view(*self))->Dict_0);
        }
        let doc = dict_value(mapping_of(fields));
        match to_text(&doc) {
            Ok(s) => Ok(s),
            Err(e) => Err(EnvelopeError::Emit(error_text(&e))),
        }
    }

    /// Reads an output from its YAML document.
    pub fn deserialize(text: &str) -> (r: Result<Self, EnvelopeError>)
        ensures
            match r {
                Ok(o) => parsed_node(text@) matches Some(doc) && read_output(doc) == Some(
                    output_view(o),
                ),
                Err(e) => match parsed_node(text@) {
                    None => e is Parse,
                    Some(doc) => read_output(doc) is None && e is Malformed,
                },
            },
    {
        let doc = match from_text(text) {
            Err(e) => { return Err(EnvelopeError::Parse(error_text(&e))); },
            Ok(doc) => doc,
        };
        let top = match shape_of(&doc) {
            Shape::Dict(top) => top,
            _ => {
                return Err(
                    EnvelopeError::Malformed(String::from_str("expected a mapping at the root")),
                );
            },
        };
        let tag = match text_under(&top, "type") {
            None => {
                return Err(EnvelopeError::Malformed(String::from_str("missing field `type`")));
            },
            Some(tag) => tag,
        };
        let value = match text_under(&top, "value") {
            None => {
                return Err(EnvelopeError::Malformed(String::from_str("missing field `value`")));
            },
            Some(value) => value,
        };
        if str_eq(tag.as_str(), "Ok") {
            Ok(MistOutput::Rendered(value))
        } else if str_eq(tag.as_str(), "Err") {
            Ok(MistOutput::Failed(value))
        } else {
            Err(EnvelopeError::Malformed(String::from_str("`type` must be `Ok` or `Err`")))
        }
    }
}

} // verus!

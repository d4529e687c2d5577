//! YAML values as `serde_yaml` holds them, and the calls this library makes on them.
//!
//! A value is carried as `serde_yaml::Value`; what it holds is spoken of through [`Node`],
//! a tree of plain values. Nothing in this file is proved: each item states what the
//! `serde_yaml` function that it calls does.

use crate::ordered::{distinct_keys, has_key, lookup, put};

use serde::Deserialize;
use vstd::prelude::*;

verus! {

#[verifier::external_type_specification]
#[verifier::external_body]
pub struct ExValue(serde_yaml::Value);

#[verifier::external_type_specification]
#[verifier::external_body]
pub struct ExMapping(serde_yaml::Mapping);

#[verifier::external_type_specification]
#[verifier::external_body]
pub struct ExError(serde_yaml::Error);

/// What a YAML value holds.
pub enum Node {
    Null,
    Bool(bool),
    /// A number, by its canonical text.
    Number(Seq<char>),
    Text(Seq<char>),
    List(Seq<Node>),
    /// The entries of a mapping, in the order of their insertion.
    Dict(Seq<(Node, Node)>),
    /// A tag and the value that bears it.
    Tagged(Seq<char>, Box<Node>),
}

/// One level of a YAML value: its variant, with the values below it still as `serde_yaml`
/// holds them.
pub enum Shape {
    Null,
    Bool(bool),
    /// A number, by the text that its `Display` writes.
    Number(String),
    Text(String),
    List(Vec<serde_yaml::Value>),
    Dict(serde_yaml::Mapping),
    Tagged,
}

/// What the value `v` holds.
pub uninterp spec fn value_node(v: serde_yaml::Value) -> Node;

/// The entries that the mapping `m` holds, in the order of their insertion.
pub uninterp spec fn mapping_entries(m: serde_yaml::Mapping) -> Seq<(Node, Node)>;

/// What `serde_yaml::from_str` reads from `text` as one document, `None` where it fails.
pub uninterp spec fn parsed_node(text: Seq<char>) -> Option<Node>;

/// The documents that `serde_yaml::Deserializer` reads from the stream `text`, `None` where
/// one of them fails.
pub uninterp spec fn parsed_documents(text: Seq<char>) -> Option<Seq<Node>>;

/// The text that `serde_yaml::to_string` writes for a value, `None` where it fails.
pub uninterp spec fn emitted_text(n: Node) -> Option<Seq<char>>;

/// What each of `values` holds.
pub open spec fn nodes_of(values: Seq<serde_yaml::Value>) -> Seq<Node> {
    Seq::new(values.len(), |i: int| value_node(values[i]))
}

/// What each pair of `pairs` holds.
pub open spec fn entries_of(pairs: Seq<(serde_yaml::Value, serde_yaml::Value)>) -> Seq<
    (Node, Node),
> {
    Seq::new(pairs.len(), |i: int| (value_node(pairs[i].0), value_node(pairs[i].1)))
}

/// `serde_yaml::from_str` at the type `serde_yaml::Value`: the one document of `text`.
/// The result is a function of the text alone.
#[verifier::external_body]
pub(crate) fn from_text(text: &str) -> (r: Result<serde_yaml::Value, serde_yaml::Error>)
    ensures
        match r {
            Ok(v) => parsed_node(text@) == Some(value_node(v)),
            Err(_) => parsed_node(text@) is None,
        },
{
    serde_yaml::from_str::<serde_yaml::Value>(text)
}

/// `serde_yaml::Deserializer::from_str`, walked to its end, each document read as a
/// `serde_yaml::Value`. The result is a function of the text alone.
#[verifier::external_body]
pub(crate) fn documents_from_text(text: &str) -> (r: Result<
    Vec<serde_yaml::Value>,
    serde_yaml::Error,
>)
    ensures
        match r {
            Ok(docs) => parsed_documents(text@) == Some(nodes_of(docs@)),
            Err(_) => parsed_documents(text@) is None,
        },
{
    serde_yaml::Deserializer::from_str(text).map(|d| serde_yaml::Value::deserialize(d)).collect()
}

/// `serde_yaml::to_string` on a value. The result is a function of what the value holds.
#[verifier::external_body]
pub(crate) fn to_text(v: &serde_yaml::Value) -> (r: Result<String, serde_yaml::Error>)
    ensures
        match r {
            Ok(s) => emitted_text(value_node(*v)) == Some(s@),
            Err(_) => emitted_text(value_node(*v)) is None,
        },
{
    serde_yaml::to_string(v)
}

/// The message of a `serde_yaml::Error`, as its `Display` writes it.
#[verifier::external_body]
pub(crate) fn error_text(e: &serde_yaml::Error) -> (r: String) {
    e.to_string()
}

/// Tells the variants of `serde_yaml::Value` apart and hands out what the variant holds; a
/// number is handed out as the text that `Display` of `serde_yaml::Number` writes.
#[verifier::external_body]
pub(crate) fn shape_of(v: &serde_yaml::Value) -> (r: Shape)
    ensures
        match r {
            Shape::Null => value_node(*v) == Node::Null,
            Shape::Bool(b) => value_node(*v) == Node::Bool(b),
            Shape::Number(t) => value_node(*v) == Node::Number(t@),
            Shape::Text(s) => value_node(*v) == Node::Text(s@),
            Shape::List(items) => value_node(*v) == Node::List(nodes_of(items@)),
            Shape::Dict(m) => value_node(*v) == Node::Dict(mapping_entries(m)),
            Shape::Tagged => value_node(*v) is Tagged,
        },
{
    match v {
        serde_yaml::Value::Null => Shape::Null,
        serde_yaml::Value::Bool(b) => Shape::Bool(*b),
        serde_yaml::Value::Number(n) => Shape::Number(n.to_string()),
        serde_yaml::Value::String(s) => Shape::Text(s.clone()),
        serde_yaml::Value::Sequence(items) => Shape::List(items.clone()),
        serde_yaml::Value::Mapping(m) => Shape::Dict(m.clone()),
        serde_yaml::Value::Tagged(_) => Shape::Tagged,
    }
}

/// The variant `serde_yaml::Value::String`.
#[verifier::external_body]
pub(crate) fn text_value(s: &str) -> (v: serde_yaml::Value)
    ensures
        value_node(v) == Node::Text(s@),
{
    serde_yaml::Value::String(s.to_owned())
}

/// The variant `serde_yaml::Value::Sequence`.
#[verifier::external_body]
pub(crate) fn list_value(items: Vec<serde_yaml::Value>) -> (v: serde_yaml::Value)
    ensures
        value_node(v) == Node::List(nodes_of(items@)),
{
    serde_yaml::Value::Sequence(items)
}

/// The variant `serde_yaml::Value::Mapping`.
#[verifier::external_body]
pub(crate) fn dict_value(m: serde_yaml::Mapping) -> (v: serde_yaml::Value)
    ensures
        value_node(v) == Node::Dict(mapping_entries(m)),
{
    serde_yaml::Value::Mapping(m)
}

/// `Clone` of `serde_yaml::Mapping`, which is derived: the copy holds the same entries.
pub assume_specification[ <serde_yaml::Mapping as Clone>::clone ](
    m: &serde_yaml::Mapping,
) -> (r: serde_yaml::Mapping)
    ensures
        mapping_entries(r) == mapping_entries(*m),
;

/// `Clone` of `serde_yaml::Value`, which is derived: the copy holds the same.
pub assume_specification[ <serde_yaml::Value as Clone>::clone ](v: &serde_yaml::Value) -> (r:
    serde_yaml::Value)
    ensures
        value_node(r) == value_node(*v),
;

/// `serde_yaml::Mapping::new`: a mapping without entries.
#[verifier::external_body]
pub(crate) fn mapping_new() -> (m: serde_yaml::Mapping)
    ensures
        mapping_entries(m) == Seq::<(Node, Node)>::empty(),
{
    serde_yaml::Mapping::new()
}

/// `serde_yaml::Mapping::insert`. A key that the mapping has keeps its place and gets the new
/// value; a new key goes to the end. The mapping finds a text key, and any key that an entry
/// holds; of another key this says only that one of the two happened.
#[verifier::external_body]
pub(crate) fn mapping_insert(m: &mut serde_yaml::Mapping, k: serde_yaml::Value, v: serde_yaml::Value)
    ensures
        value_node(k) is Text || has_key(mapping_entries(*old(m)), value_node(k))
            ==> mapping_entries(*final(m)) == put(
            mapping_entries(*old(m)),
            value_node(k),
            value_node(v),
        ),
        mapping_entries(*final(m)) == mapping_entries(*old(m)).push((value_node(k), value_node(v)))
            || exists|i: int|
            0 <= i < mapping_entries(*old(m)).len() && mapping_entries(*final(m))
                == mapping_entries(*old(m)).update(
                i,
                (#[trigger] mapping_entries(*old(m))[i].0, value_node(v)),
            ),
        distinct_keys(mapping_entries(*final(m))),
{
    m.insert(k, v);
}

/// `serde_yaml::Mapping::get` with a text key: the value of the entry whose key is that text.
#[verifier::external_body]
pub(crate) fn mapping_get(m: &serde_yaml::Mapping, key: &str) -> (r: Option<serde_yaml::Value>)
    ensures
        match r {
            Some(v) => lookup(mapping_entries(*m), Node::Text(key@)) == Some(value_node(v)),
            None => lookup(mapping_entries(*m), Node::Text(key@)) is None,
        },
{
    m.get(key).cloned()
}

/// `serde_yaml::Mapping::iter`: the entries in the order of their insertion. No two of them
/// have the same key.
#[verifier::external_body]
pub(crate) fn mapping_pairs(m: &serde_yaml::Mapping) -> (r: Vec<
    (serde_yaml::Value, serde_yaml::Value),
>)
    ensures
        entries_of(r@) == mapping_entries(*m),
        distinct_keys(entries_of(r@)),
{
    m.iter().map(|(k, v)| (k.clone(), v.clone())).collect()
}

} // verus!

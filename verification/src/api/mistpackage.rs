//! The description that a package gives of itself.

use crate::api::envelope::{
    api_version, envelope, envelope_value, is_framed, read_document, EnvelopeError, EnvelopeFault,
    API_VERSION,
};
use crate::api::mistresult::index_map_of;
use crate::document::{
    keyed_entries, lemma_read_text_entries, mapping_at, mapping_of, mapping_of_texts,
    mapping_under, optional_text_at, optional_text_under, read_texts, text_at, text_entries,
    text_under, texts_of_mapping,
};
use crate::index_map::{index_map_entries, index_map_pairs};
use crate::ordered::{distinct_keys, has_key, lemma_lookup_at, lemma_lookup_none, lookup};
use crate::yaml::{
    dict_value, emitted_text, error_text, mapping_entries, mapping_get, parsed_node, shape_of,
    text_value, to_text, value_node, Node, Shape,
};
use indexmap::IndexMap;
use vstd::prelude::*;
use vstd::string::*;

verus! {

/// What a package says of itself: its name and, where it gives any, its labels.
#[derive(PartialEq, Debug)]
pub struct MistPackage {
    pub name: String,
    pub labels: Option<IndexMap<String, String>>,
}

/// The description in its longer form, which may also name the functions that the package
/// exports for the host to call.
#[derive(PartialEq, Debug)]
pub struct MistHuskPackage {
    pub name: String,
    pub labels: Option<IndexMap<String, String>>,
    pub function_generate: Option<String>,
    pub function_alloc: Option<String>,
    pub function_dealloc: Option<String>,
}

pub struct PackageView {
    pub name: Seq<char>,
    /// The labels in the order in which they were given.
    pub labels: Option<Seq<(Seq<char>, Seq<char>)>>,
}

pub struct HuskPackageView {
    pub name: Seq<char>,
    pub labels: Option<Seq<(Seq<char>, Seq<char>)>>,
    pub function_generate: Option<Seq<char>>,
    pub function_alloc: Option<Seq<char>>,
    pub function_dealloc: Option<Seq<char>>,
}

pub open spec fn labels_view(labels: Option<IndexMap<String, String>>) -> Option<
    Seq<(Seq<char>, Seq<char>)>,
> {
    match labels {
        None => None,
        Some(m) => Some(index_map_entries(m)),
    }
}

pub open spec fn text_view(text: Option<String>) -> Option<Seq<char>> {
    match text {
        None => None,
        Some(t) => Some(t@),
    }
}

impl View for MistPackage {
    type V = PackageView;

    open spec fn view(&self) -> PackageView {
        PackageView { name: self.name@, labels: labels_view(self.labels) }
    }
}

impl View for MistHuskPackage {
    type V = HuskPackageView;

    open spec fn view(&self) -> HuskPackageView {
        HuskPackageView {
            name: self.name@,
            labels: labels_view(self.labels),
            function_generate: text_view(self.function_generate),
            function_alloc: text_view(self.function_alloc),
            function_dealloc: text_view(self.function_dealloc),
        }
    }
}

/// The `metadata` of the document for a package: the name, then the labels where it has any.
pub open spec fn package_metadata(name: Seq<char>, labels: Option<Seq<(Seq<char>, Seq<char>)>>) -> Seq<
    (Node, Node),
> {
    seq![(Node::Text("name"@), Node::Text(name))] + (match labels {
        Some(ls) => seq![(Node::Text("labels"@), Node::Dict(text_entries(ls)))],
        None => Seq::empty(),
    })
}

/// The document for a package.
pub open spec fn package_document(p: PackageView) -> Node {
    envelope("MistPackage"@, "metadata"@, Node::Dict(package_metadata(p.name, p.labels)))
}

/// One optional entry of a mapping: present where the text is.
pub open spec fn optional_entry(key: Seq<char>, text: Option<Seq<char>>) -> Seq<(Node, Node)> {
    match text {
        Some(t) => seq![(Node::Text(key), Node::Text(t))],
        None => Seq::empty(),
    }
}

/// The `functions` of the longer document: each name that is given, in the order generate,
/// alloc, dealloc.
pub open spec fn package_functions(p: HuskPackageView) -> Seq<(Node, Node)> {
    optional_entry("generate"@, p.function_generate) + optional_entry(
        "alloc"@,
        p.function_alloc,
    ) + optional_entry("dealloc"@, p.function_dealloc)
}

/// The document for a package in its longer form.
pub open spec fn husk_package_document(p: HuskPackageView) -> Node {
    Node::Dict(
        seq![
            (Node::Text("apiVersion"@), Node::Text(api_version())),
            (Node::Text("kind"@), Node::Text("MistHuskPackage"@)),
            (Node::Text("metadata"@), Node::Dict(package_metadata(p.name, p.labels))),
            (
                Node::Text("spec"@),
                Node::Dict(seq![(Node::Text("functions"@), Node::Dict(package_functions(p)))]),
            ),
        ],
    )
}

/// The labels under `key`: none where the key is missing or null, and `None` where the key
/// holds anything but a mapping from texts to texts.
pub open spec fn labels_at(entries: Seq<(Node, Node)>, key: Seq<char>) -> Option<
    Option<Seq<(Seq<char>, Seq<char>)>>,
> {
    match lookup(entries, Node::Text(key)) {
        None => Some(None),
        Some(Node::Null) => Some(None),
        Some(Node::Dict(inner)) => match read_texts(inner) {
            Some(ls) => Some(Some(ls)),
            None => None,
        },
        Some(_) => None,
    }
}

/// The package that a document describes, `None` where the document has another shape.
pub open spec fn read_package(doc: Node) -> Option<PackageView> {
    match doc {
        Node::Dict(top) => if !is_framed(top) {
            None
        } else {
            match mapping_at(top, "metadata"@) {
                None => None,
                Some(metadata) => match (
                    text_at(metadata, "name"@),
                    labels_at(metadata, "labels"@),
                ) {
                    (Some(name), Some(labels)) => Some(PackageView { name, labels }),
                    _ => None,
                },
            }
        },
        _ => None,
    }
}

/// The package that a document in the longer form describes, `None` where the document has
/// another shape. The block `spec.functions` must be there; each name in it may be left out.
pub open spec fn read_husk_package(doc: Node) -> Option<HuskPackageView> {
    match doc {
        Node::Dict(top) => match (read_package(doc), mapping_at(top, "spec"@)) {
            (Some(p), Some(spec)) => match mapping_at(spec, "functions"@) {
                None => None,
                Some(functions) => match (
                    optional_text_at(functions, "generate"@),
                    optional_text_at(functions, "alloc"@),
                    optional_text_at(functions, "dealloc"@),
                ) {
                    (Some(g), Some(a), Some(d)) => Some(
                        HuskPackageView {
                            name: p.name,
                            labels: p.labels,
                            function_generate: g,
                            function_alloc: a,
                            function_dealloc: d,
                        },
                    ),
                    _ => None,
                },
            },
            _ => None,
        },
        _ => None,
    }
}

/// The package that the headers of a package name: a mapping with a `name` and, where the
/// package has any, `labels`.
pub open spec fn read_headers(doc: Node) -> Option<PackageView> {
    match doc {
        Node::Dict(top) => match (text_at(top, "name"@), labels_at(top, "labels"@)) {
            (Some(name), Some(labels)) => Some(PackageView { name, labels }),
            _ => None,
        },
        _ => None,
    }
}

/// The package that a text of headers names.
pub open spec fn parsed_headers(text: Seq<char>) -> Result<PackageView, EnvelopeFault> {
    match parsed_node(text) {
        None => Err(EnvelopeFault::Parse),
        Some(doc) => match read_headers(doc) {
            None => Err(EnvelopeFault::Malformed),
            Some(p) => Ok(p),
        },
    }
}

/// The package that a text describes.
pub open spec fn deserialized_package(text: Seq<char>) -> Result<PackageView, EnvelopeFault> {
    match parsed_node(text) {
        None => Err(EnvelopeFault::Parse),
        Some(doc) => match read_package(doc) {
            None => Err(EnvelopeFault::Malformed),
            Some(p) => Ok(p),
        },
    }
}

/// The package that a text in the longer form describes.
pub open spec fn deserialized_husk_package(text: Seq<char>) -> Result<
    HuskPackageView,
    EnvelopeFault,
> {
    match parsed_node(text) {
        None => Err(EnvelopeFault::Parse),
        Some(doc) => match read_husk_package(doc) {
            None => Err(EnvelopeFault::Malformed),
            Some(p) => Ok(p),
        },
    }
}

/// The labels under `key` of a mapping; the error is `()`.
fn labels_under(m: &serde_yaml::Mapping, key: &str) -> (r: Result<
    Option<IndexMap<String, String>>,
    (),
>)
    ensures
        match r {
            Ok(labels) => labels_at(mapping_entries(*m), key@) == Some(labels_view(labels)),
            Err(_) => labels_at(mapping_entries(*m), key@) is None,
        },
{
    match mapping_get(m, key) {
        None => Ok(None),
        Some(v) => match shape_of(&v) {
            Shape::Null => Ok(None),
            Shape::Dict(inner) => match texts_of_mapping(&inner) {
                None => Err(()),
                Some(labels) => Ok(Some(labels)),
            },
            _ => Err(()),
        },
    }
}

/// The value for the `metadata` of a package.
fn metadata_value(name: &String, labels: &Option<IndexMap<String, String>>) -> (v:
    serde_yaml::Value)
    ensures
        value_node(v) == Node::Dict(package_metadata(name@, labels_view(*labels))),
{
    let mut fields: Vec<(String, serde_yaml::Value)> = Vec::new();
    fields.push((String::from_str("name"), text_value(name.as_str())));
    match labels {
        Some(ls) => {
            let pairs = index_map_pairs(ls);
            let listed = mapping_of_texts(&pairs);
            fields.push((String::from_str("labels"), dict_value(listed)));
        },
        None => {},
    }
    proof {
        reveal_strlit("name");
        reveal_strlit("labels");
        assert("name"@.len() != "labels"@.len());
        assert(keyed_entries(fields@) =~= package_metadata(name@, labels_view(*labels)));
    }
    dict_value(mapping_of(fields))
}

/// The package that the root of a document describes; the error is the message.
pub fn package_of_mapping(top: &serde_yaml::Mapping) -> (r: Result<MistPackage, String>)
    ensures
        match r {
            Ok(p) => read_package(Node::Dict(mapping_entries(*top))) == Some(p@),
            Err(_) => read_package(Node::Dict(mapping_entries(*top))) is None,
        },
{
    if text_under(top, "apiVersion").is_none() {
        return Err(String::from_str("missing field `apiVersion`"));
    }
    if text_under(top, "kind").is_none() {
        return Err(String::from_str("missing field `kind`"));
    }
    let metadata = match mapping_under(top, "metadata") {
        None => { return Err(String::from_str("missing field `metadata`")); },
        Some(metadata) => metadata,
    };
    let name = match text_under(&metadata, "name") {
        None => { return Err(String::from_str("missing field `name`")); },
        Some(name) => name,
    };
    let labels = match labels_under(&metadata, "labels") {
        Err(_) => {
            return Err(String::from_str("`labels` must be a mapping from strings to strings"));
        },
        Ok(labels) => labels,
    };
    Ok(MistPackage { name, labels })
}

impl MistPackage {
    /// Reads the headers that the author of a package writes: the name of the package and
    /// its labels. The description that the package hands out is this value, written as a
    /// document.
    pub fn from_headers(text: &str) -> (r: Result<Self, EnvelopeError>)
        ensures
            match r {
                Ok(p) => parsed_headers(text@) == Ok::<_, EnvelopeFault>(p@),
                Err(e) => parsed_headers(text@) == Err::<PackageView, _>(e.fault()),
            },
    {
        let doc = match read_document(text) {
            Err(e) => { return Err(e); },
            Ok(doc) => doc,
        };
        let top = match shape_of(&doc) {
            Shape::Dict(top) => top,
            _ => {
                return Err(
                    EnvelopeError::Malformed(String::from_str("expected a mapping at the root")),
                );
            },
        };
        let name = match text_under(&top, "name") {
            None => {
                return Err(EnvelopeError::Malformed(String::from_str("missing field `name`")));
            },
            Some(name) => name,
        };
        match labels_under(&top, "labels") {
            Err(_) => Err(
                EnvelopeError::Malformed(
                    String::from_str("`labels` must be a mapping from strings to strings"),
                ),
            ),
            Ok(labels) => Ok(MistPackage { name, labels }),
        }
    }

    /// Writes the description as a `MistPackage` document.
    pub fn serialize(&self) -> (r: Result<String, EnvelopeError>)
        ensures
            match r {
                Ok(s) => emitted_text(package_document(self@)) == Some(s@),
                Err(e) => emitted_text(package_document(self@)) is None && e is Emit,
            },
    {
        let metadata = metadata_value(&self.name, &self.labels);
        proof {
            reveal_strlit("metadata");
            reveal_strlit("apiVersion");
            reveal_strlit("kind");
            assert("metadata"@.len() != "apiVersion"@.len());
            assert("metadata"@.len() != "kind"@.len());
        }
        let v = envelope_value("MistPackage", "metadata", metadata);
        match to_text(&v) {
            Ok(s) => Ok(s),
            Err(e) => Err(EnvelopeError::Emit(error_text(&e))),
        }
    }

    /// Reads a description from its YAML document. The document must name a version and a
    /// kind and hold `metadata` with a `name`; the labels may be left out.
    pub fn deserialize(text: &str) -> (r: Result<Self, EnvelopeError>)
        ensures
            match r {
                Ok(p) => deserialized_package(text@) == Ok::<_, EnvelopeFault>(p@),
                Err(e) => deserialized_package(text@) == Err::<PackageView, _>(e.fault()),
            },
    {
        let doc = match read_document(text) {
            Err(e) => { return Err(e); },
            Ok(doc) => doc,
        };
        let top = match shape_of(&doc) {
            Shape::Dict(top) => top,
            _ => {
                return Err(
                    EnvelopeError::Malformed(String::from_str("expected a mapping at the root")),
                );
            },
        };
        match package_of_mapping(&top) {
            Ok(p) => Ok(p),
            Err(m) => Err(EnvelopeError::Malformed(m)),
        }
    }
}

impl Clone for MistPackage {
    fn clone(&self) -> (r: Self)
        ensures
            r@ == self@,
    {
        let labels = match &self.labels {
            Some(ls) => {
                let pairs = index_map_pairs(ls);
                Some(index_map_of(&pairs))
            },
            None => None,
        };
        MistPackage { name: self.name.clone(), labels }
    }
}

/// One optional field of a mapping that is being built.
fn push_optional(fields: &mut Vec<(String, serde_yaml::Value)>, key: &str, text: &Option<String>)
    ensures
        keyed_entries(final(fields)@) == keyed_entries(old(fields)@) + optional_entry(
            key@,
            text_view(*text),
        ),
        final(fields)@.len() == old(fields)@.len() + (if text is Some {
            1int
        } else {
            0int
        }),
        forall|i: int| 0 <= i < old(fields)@.len() ==> final(fields)@[i] == old(fields)@[i],
        text is Some ==> final(fields)@.last().0@ == key@,
{
    match text {
        Some(t) => {
            fields.push((String::from_str(key), text_value(t.as_str())));
            assert(keyed_entries(fields@) =~= keyed_entries(old(fields)@) + optional_entry(
                key@,
                text_view(*text),
            ));
        },
        None => {
            assert(keyed_entries(fields@) =~= keyed_entries(old(fields)@) + optional_entry(
                key@,
                text_view(*text),
            ));
        },
    }
}

impl MistHuskPackage {
    /// Writes the description as a `MistHuskPackage` document.
    pub fn serialize(&self) -> (r: Result<String, EnvelopeError>)
        ensures
            match r {
                Ok(s) => emitted_text(husk_package_document(self@)) == Some(s@),
                Err(e) => emitted_text(husk_package_document(self@)) is None && e is Emit,
            },
    {
        proof {
            reveal_strlit("generate");
            reveal_strlit("alloc");
            reveal_strlit("dealloc");
            reveal_strlit("apiVersion");
            reveal_strlit("kind");
            reveal_strlit("metadata");
            reveal_strlit("spec");
            assert("kind"@[0] != "spec"@[0]);
        }
        let mut names: Vec<(String, serde_yaml::Value)> = Vec::new();
        assert(keyed_entries(names@) =~= Seq::empty());
        push_optional(&mut names, "generate", &self.function_generate);
        push_optional(&mut names, "alloc", &self.function_alloc);
        push_optional(&mut names, "dealloc", &self.function_dealloc);
        proof {
            assert(keyed_entries(names@) =~= package_functions(self@));
            assert forall|i: int, j: int| 0 <= i < j < names@.len() implies (#[trigger] names@[i]).0@
                != (#[trigger] names@[j]).0@ by {
                assert(names@[i].0@ == "generate"@ || names@[i].0@ == "alloc"@ || names@[i].0@
                    == "dealloc"@);
                assert(names@[j].0@ == "generate"@ || names@[j].0@ == "alloc"@ || names@[j].0@
                    == "dealloc"@);
                assert(names@[i].0@.len() != names@[j].0@.len());
            }
        }
        let functions = dict_value(mapping_of(names));
        let mut inner: Vec<(String, serde_yaml::Value)> = Vec::new();
        inner.push((String::from_str("functions"), functions));
        let spec_value = dict_value(mapping_of(inner));
        proof {
            assert(keyed_entries(inner@) =~= seq![
                (Node::Text("functions"@), Node::Dict(package_functions(self@))),
            ]);
        }
        let metadata = metadata_value(&self.name, &self.labels);
        let mut fields: Vec<(String, serde_yaml::Value)> = Vec::new();
        fields.push((String::from_str("apiVersion"), text_value(API_VERSION)));
        fields.push((String::from_str("kind"), text_value("MistHuskPackage")));
        fields.push((String::from_str("metadata"), metadata));
        fields.push((String::from_str("spec"), spec_value));
        proof {
            assert(keyed_entries(fields@) =~= seq![
                (Node::Text("apiVersion"@), Node::Text(api_version())),
                (Node::Text("kind"@), Node::Text("MistHuskPackage"@)),
                (Node::Text("metadata"@), Node::Dict(package_metadata(self@.name, self@.labels))),
                (
                    Node::Text("spec"@),
                    Node::Dict(
                        seq![(Node::Text("functions"@), Node::Dict(package_functions(self@)))],
                    ),
                ),
            ]);
        }
        proof {
            assert forall|i: int, j: int| 0 <= i < j < fields@.len() implies (
            #[trigger] fields@[i]).0@ != (#[trigger] fields@[j]).0@ by {
                assert(fields@[0].0@ == "apiVersion"@);
                assert(fields@[1].0@ == "kind"@);
                assert(fields@[2].0@ == "metadata"@);
                assert(fields@[3].0@ == "spec"@);
                if i == 1 && j == 3 {
                    assert(fields@[i].0@[0] != fields@[j].0@[0]);
                } else {
                    assert(fields@[i].0@.len() != fields@[j].0@.len());
                }
            }
        }
        let v = dict_value(mapping_of(fields));
        match to_text(&v) {
            Ok(s) => Ok(s),
            Err(e) => Err(EnvelopeError::Emit(error_text(&e))),
        }
    }

    /// Reads a description in the longer form from its YAML document.
    pub fn deserialize(text: &str) -> (r: Result<Self, EnvelopeError>)
        ensures
            match r {
                Ok(p) => deserialized_husk_package(text@) == Ok::<_, EnvelopeFault>(p@),
                Err(e) => deserialized_husk_package(text@) == Err::<HuskPackageView, _>(
                    e.fault(),
                ),
            },
    {
        let doc = match read_document(text) {
            Err(e) => { return Err(e); },
            Ok(doc) => doc,
        };
        let top = match shape_of(&doc) {
            Shape::Dict(top) => top,
            _ => {
                return Err(
                    EnvelopeError::Malformed(String::from_str("expected a mapping at the root")),
                );
            },
        };
        let base = match package_of_mapping(&top) {
            Ok(p) => p,
            Err(m) => { return Err(EnvelopeError::Malformed(m)); },
        };
        let spec_block = match mapping_under(&top, "spec") {
            None => {
                return Err(EnvelopeError::Malformed(String::from_str("missing field `spec`")));
            },
            Some(s) => s,
        };
        let functions = match mapping_under(&spec_block, "functions") {
            None => {
                return Err(
                    EnvelopeError::Malformed(String::from_str("missing field `functions`")),
                );
            },
            Some(f) => f,
        };
        let generate = optional_text_under(&functions, "generate");
        let alloc = optional_text_under(&functions, "alloc");
        let dealloc = optional_text_under(&functions, "dealloc");
        match (generate, alloc, dealloc) {
            (Ok(g), Ok(a), Ok(d)) => Ok(
                MistHuskPackage {
                    name: base.name,
                    labels: base.labels,
                    function_generate: g,
                    function_alloc: a,
                    function_dealloc: d,
                },
            ),
            _ => Err(
                EnvelopeError::Malformed(String::from_str("a function name must be a string")),
            ),
        }
    }
}

/// Reading the document that is written for a description gives the description back, with
/// its labels in the order in which they were given; no two labels of a description have
/// the same key. Together with a YAML writer and reader
/// that hand a document back as it was written, a description survives being written and
/// read.
pub proof fn lemma_package_document_round_trip(p: PackageView)
    requires
        p.labels matches Some(ls) ==> distinct_keys(ls),
    ensures
        read_package(package_document(p)) == Some(p),
{
    reveal_strlit("apiVersion");
    reveal_strlit("kind");
    reveal_strlit("metadata");
    reveal_strlit("name");
    reveal_strlit("labels");
    assert("apiVersion"@.len() != "kind"@.len());
    assert("name"@.len() != "labels"@.len());
    let metadata = package_metadata(p.name, p.labels);
    let top = seq![
        (Node::Text("apiVersion"@), Node::Text(api_version())),
        (Node::Text("kind"@), Node::Text("MistPackage"@)),
        (Node::Text("metadata"@), Node::Dict(metadata)),
    ];
    assert(package_document(p) == Node::Dict(top));
    assert(distinct_keys(top));
    lemma_lookup_at(top, 0);
    lemma_lookup_at(top, 1);
    lemma_lookup_at(top, 2);
    assert(distinct_keys(metadata));
    lemma_lookup_at(metadata, 0);
    lemma_lookup_none(metadata, Node::Text("labels"@));
    match p.labels {
        Some(ls) => {
            assert(metadata[1] == (Node::Text("labels"@), Node::Dict(text_entries(ls))));
            lemma_lookup_at(metadata, 1);
            lemma_read_text_entries(ls);
        },
        None => {
            assert(!has_key(metadata, Node::Text("labels"@)));
        },
    }
}

/// Reading the document that is written for a description in the longer form gives the
/// description back, the names of its functions among it.
pub proof fn lemma_husk_package_document_round_trip(p: HuskPackageView)
    requires
        p.labels matches Some(ls) ==> distinct_keys(ls),
    ensures
        read_husk_package(husk_package_document(p)) == Some(p),
{
    reveal_strlit("apiVersion");
    reveal_strlit("kind");
    reveal_strlit("metadata");
    reveal_strlit("spec");
    reveal_strlit("functions");
    reveal_strlit("name");
    reveal_strlit("labels");
    reveal_strlit("generate");
    reveal_strlit("alloc");
    reveal_strlit("dealloc");
    assert("kind"@[0] != "spec"@[0]);
    assert("name"@.len() != "labels"@.len());
    let metadata = package_metadata(p.name, p.labels);
    let functions = package_functions(p);
    let block = seq![(Node::Text("functions"@), Node::Dict(functions))];
    let top = seq![
        (Node::Text("apiVersion"@), Node::Text(api_version())),
        (Node::Text("kind"@), Node::Text("MistHuskPackage"@)),
        (Node::Text("metadata"@), Node::Dict(metadata)),
        (Node::Text("spec"@), Node::Dict(block)),
    ];
    assert(husk_package_document(p) == Node::Dict(top));
    assert(distinct_keys(top)) by {
        assert forall|i: int, j: int| 0 <= i < j < top.len() implies (#[trigger] top[i]).0 != (
        #[trigger] top[j]).0 by {
            assert(top[0].0 == Node::Text("apiVersion"@));
            assert(top[1].0 == Node::Text("kind"@));
            assert(top[2].0 == Node::Text("metadata"@));
            assert(top[3].0 == Node::Text("spec"@));
            assert("apiVersion"@.len() == 10 && "kind"@.len() == 4 && "metadata"@.len() == 8
                && "spec"@.len() == 4);
        }
    }
    lemma_lookup_at(top, 0);
    lemma_lookup_at(top, 1);
    lemma_lookup_at(top, 2);
    lemma_lookup_at(top, 3);
    // the part that the shorter form shares
    assert(distinct_keys(metadata));
    lemma_lookup_at(metadata, 0);
    lemma_lookup_none(metadata, Node::Text("labels"@));
    match p.labels {
        Some(ls) => {
            assert(metadata[1] == (Node::Text("labels"@), Node::Dict(text_entries(ls))));
            lemma_lookup_at(metadata, 1);
            lemma_read_text_entries(ls);
        },
        None => {
            assert(!has_key(metadata, Node::Text("labels"@)));
        },
    }
    assert(read_package(Node::Dict(top)) == Some(PackageView { name: p.name, labels: p.labels }));
    // the names of the functions
    assert(distinct_keys(block));
    lemma_lookup_at(block, 0);
    assert forall|i: int, j: int| 0 <= i < j < functions.len() implies (#[trigger] functions[i]).0
        != (#[trigger] functions[j]).0 by {
        lemma_function_keys(p, i);
        lemma_function_keys(p, j);
    }
    lemma_function_found(p);
}

/// The three keys of a function block, and where each stands among the entries.
pub open spec fn function_rank(key: Node) -> int {
    if key == Node::Text("generate"@) {
        0
    } else if key == Node::Text("alloc"@) {
        1
    } else {
        2
    }
}

/// The entries of a function block stand in the order generate, alloc, dealloc.
pub(crate) proof fn lemma_function_keys(p: HuskPackageView, i: int)
    requires
        0 <= i < package_functions(p).len(),
    ensures
        package_functions(p)[i].0 == Node::Text("generate"@) || package_functions(p)[i].0
            == Node::Text("alloc"@) || package_functions(p)[i].0 == Node::Text("dealloc"@),
        forall|j: int|
            i < j < package_functions(p).len() ==> function_rank(package_functions(p)[i].0)
                < function_rank(#[trigger] package_functions(p)[j].0),
{
    reveal_strlit("generate");
    reveal_strlit("alloc");
    reveal_strlit("dealloc");
    assert("generate"@.len() == 8 && "alloc"@.len() == 5 && "dealloc"@.len() == 7);
    let g = optional_entry("generate"@, p.function_generate);
    let a = optional_entry("alloc"@, p.function_alloc);
    let d = optional_entry("dealloc"@, p.function_dealloc);
    let all = package_functions(p);
    assert(all == g + a + d);
    assert forall|k: int| 0 <= k < all.len() implies (#[trigger] all[k]).0 == (if k < g.len() {
        Node::Text("generate"@)
    } else if k < g.len() + a.len() {
        Node::Text("alloc"@)
    } else {
        Node::Text("dealloc"@)
    }) by {}
}

/// Each name of a function block is found under its key, and a name that was left out is
/// found missing.
pub(crate) proof fn lemma_function_found(p: HuskPackageView)
    requires
        crate::ordered::distinct_keys(package_functions(p)),
    ensures
        optional_text_at(package_functions(p), "generate"@) == Some(p.function_generate),
        optional_text_at(package_functions(p), "alloc"@) == Some(p.function_alloc),
        optional_text_at(package_functions(p), "dealloc"@) == Some(p.function_dealloc),
{
    reveal_strlit("generate");
    reveal_strlit("alloc");
    reveal_strlit("dealloc");
    assert("generate"@.len() == 8 && "alloc"@.len() == 5 && "dealloc"@.len() == 7);
    let g = optional_entry("generate"@, p.function_generate);
    let a = optional_entry("alloc"@, p.function_alloc);
    let d = optional_entry("dealloc"@, p.function_dealloc);
    let all = package_functions(p);
    assert(all == g + a + d);
    lemma_lookup_none(all, Node::Text("generate"@));
    lemma_lookup_none(all, Node::Text("alloc"@));
    lemma_lookup_none(all, Node::Text("dealloc"@));
    match p.function_generate {
        Some(t) => {
            assert(all[0] == (Node::Text("generate"@), Node::Text(t)));
            lemma_lookup_at(all, 0);
        },
        None => {
            assert(!has_key(all, Node::Text("generate"@)));
        },
    }
    match p.function_alloc {
        Some(t) => {
            assert(all[g.len() as int] == (Node::Text("alloc"@), Node::Text(t)));
            lemma_lookup_at(all, g.len() as int);
        },
        None => {
            assert(!has_key(all, Node::Text("alloc"@)));
        },
    }
    match p.function_dealloc {
        Some(t) => {
            let at = (g.len() + a.len()) as int;
            assert(all[at] == (Node::Text("dealloc"@), Node::Text(t)));
            lemma_lookup_at(all, at);
        },
        None => {
            assert(!has_key(all, Node::Text("dealloc"@)));
        },
    }
}

/// A description survives being written and read, wherever the YAML reader gives back the
/// document that the YAML writer wrote: if `text` is what the writer writes for the document
/// of `p`, and the reader reads that document from `text`, then reading `text` as a
/// description gives `p`, with its labels in their order.
pub proof fn lemma_package_survives_yaml(p: PackageView, text: Seq<char>)
    requires
        p.labels matches Some(ls) ==> distinct_keys(ls),
        emitted_text(package_document(p)) == Some(text),
        parsed_node(text) == Some(package_document(p)),
    ensures
        deserialized_package(text) == Ok::<_, EnvelopeFault>(p),
{
    lemma_package_document_round_trip(p);
}

} // verus!

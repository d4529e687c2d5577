//! Installation tracking: the labels that tie a rendered resource to an install, and the
//! manifests that bear them.

use crate::text::{decimal, decimal_text, join, joined, views};
use crate::document::{child_mapping, sub_mapping};
use crate::ordered::{
    lemma_lookup_put_other, lemma_lookup_put_same, lemma_put_unchanged, lookup, put,
};
use crate::yaml::{
    dict_value, documents_from_text, emitted_text, error_text, mapping_entries, mapping_insert,
    nodes_of, parsed_documents, shape_of, text_value, to_text, value_node, Node, Shape,
};
use vstd::prelude::*;
use vstd::string::*;

verus! {

/// Label key that holds the name of the install a resource belongs to.
pub const TIED_TO_INSTALL_NAME_KEY: &'static str = "mistletoe.dev/tied-to-install-name";

/// Label key that holds the version of the install a resource belongs to.
pub const TIED_TO_INSTALL_VERSION_KEY: &'static str = "mistletoe.dev/tied-to-install-version";

pub open spec fn name_key() -> Seq<char> {
    "mistletoe.dev/tied-to-install-name"@
}

pub open spec fn version_key() -> Seq<char> {
    "mistletoe.dev/tied-to-install-version"@
}

/// The value of the version label: the letter `v` and the decimal numeral.
pub open spec fn version_label(version: nat) -> Seq<char> {
    "v"@ + decimal_text(version)
}

/// The two labels that stand for the install `(name, version)`.
pub open spec fn identity_labels(name: Seq<char>, version: nat) -> Seq<(Seq<char>, Seq<char>)> {
    seq![(name_key(), name), (version_key(), version_label(version))]
}

/// The views of a vector of labels.
pub open spec fn label_views(labels: Seq<(String, String)>) -> Seq<(Seq<char>, Seq<char>)> {
    Seq::new(labels.len(), |i: int| (labels[i].0@, labels[i].1@))
}

/// The entries after each of `labels` was put, in order, as a text key with a text value.
pub open spec fn with_labels(
    entries: Seq<(Node, Node)>,
    labels: Seq<(Seq<char>, Seq<char>)>,
) -> Seq<(Node, Node)>
    decreases labels.len(),
{
    if labels.len() == 0 {
        entries
    } else {
        put(
            with_labels(entries, labels.drop_last()),
            Node::Text(labels.last().0),
            Node::Text(labels.last().1),
        )
    }
}

/// Why a manifest could not be read, labelled or written.
#[derive(Debug)]
pub enum ManifestError {
    /// The text is no YAML; the message is the parser's.
    Parse(String),
    /// A value could not be written as YAML; the message is the writer's.
    Emit(String),
    /// A document is neither a mapping nor a sequence.
    DocumentNotMapping,
    /// An item of a sequence of resources is no mapping.
    ItemNotMapping,
    /// `metadata` is present and no mapping.
    MetadataNotMapping,
    /// `metadata.labels` is present and no mapping.
    LabelsNotMapping,
}

/// The kinds of [`ManifestError`], without their messages.
pub enum ManifestFault {
    Parse,
    Emit,
    DocumentNotMapping,
    ItemNotMapping,
    MetadataNotMapping,
    LabelsNotMapping,
}

impl ManifestError {
    pub open spec fn fault(self) -> ManifestFault {
        match self {
            ManifestError::Parse(_) => ManifestFault::Parse,
            ManifestError::Emit(_) => ManifestFault::Emit,
            ManifestError::DocumentNotMapping => ManifestFault::DocumentNotMapping,
            ManifestError::ItemNotMapping => ManifestFault::ItemNotMapping,
            ManifestError::MetadataNotMapping => ManifestFault::MetadataNotMapping,
            ManifestError::LabelsNotMapping => ManifestFault::LabelsNotMapping,
        }
    }

    pub open spec fn message_text(self) -> Seq<char> {
        match self {
            ManifestError::Parse(m) => m@,
            ManifestError::Emit(m) => m@,
            ManifestError::DocumentNotMapping =>
                "misformatted YAML, expected documents of YAML Mappings"@,
            ManifestError::ItemNotMapping =>
                "misformatted YAML, expected Mapping at base of document"@,
            ManifestError::MetadataNotMapping =>
                "misformatted YAML, expected `metadata` to be a Mapping"@,
            ManifestError::LabelsNotMapping =>
                "misformatted YAML, expected `metadata.labels` to be a Mapping"@,
        }
    }

    /// The text shown to the user.
    pub fn message(&self) -> (r: String)
        ensures
            r@ == self.message_text(),
    {
        match self {
            ManifestError::Parse(m) => m.clone(),
            ManifestError::Emit(m) => m.clone(),
            ManifestError::DocumentNotMapping => String::from_str(
                "misformatted YAML, expected documents of YAML Mappings",
            ),
            ManifestError::ItemNotMapping => String::from_str(
                "misformatted YAML, expected Mapping at base of document",
            ),
            ManifestError::MetadataNotMapping => String::from_str(
                "misformatted YAML, expected `metadata` to be a Mapping",
            ),
            ManifestError::LabelsNotMapping => String::from_str(
                "misformatted YAML, expected `metadata.labels` to be a Mapping",
            ),
        }
    }
}

/// The resource with `labels` put into its `metadata.labels`, which is made where it is
/// missing. A label that the resource bears already gets the new value.
pub open spec fn labelled(resource: Seq<(Node, Node)>, labels: Seq<(Seq<char>, Seq<char>)>) -> Result<
    Seq<(Node, Node)>,
    ManifestFault,
> {
    match sub_mapping(resource, "metadata"@) {
        None => Err(ManifestFault::MetadataNotMapping),
        Some(metadata) => match sub_mapping(metadata, "labels"@) {
            None => Err(ManifestFault::LabelsNotMapping),
            Some(found) => Ok(
                put(
                    resource,
                    Node::Text("metadata"@),
                    Node::Dict(
                        put(
                            metadata,
                            Node::Text("labels"@),
                            Node::Dict(with_labels(found, labels)),
                        ),
                    ),
                ),
            ),
        },
    }
}

/// Each of `resources` labelled, or the fault of the first that cannot be.
pub open spec fn all_labelled(
    resources: Seq<Seq<(Node, Node)>>,
    labels: Seq<(Seq<char>, Seq<char>)>,
) -> Result<Seq<Seq<(Node, Node)>>, ManifestFault>
    decreases resources.len(),
{
    if resources.len() == 0 {
        Ok(Seq::empty())
    } else {
        match all_labelled(resources.drop_last(), labels) {
            Err(f) => Err(f),
            Ok(done) => match labelled(resources.last(), labels) {
                Err(f) => Err(f),
                Ok(r) => Ok(done.push(r)),
            },
        }
    }
}

/// The resources in a sequence of items: each item must be a mapping.
pub open spec fn item_resources(items: Seq<Node>) -> Result<Seq<Seq<(Node, Node)>>, ManifestFault>
    decreases items.len(),
{
    if items.len() == 0 {
        Ok(Seq::empty())
    } else {
        match item_resources(items.drop_last()) {
            Err(f) => Err(f),
            Ok(done) => match items.last() {
                Node::Dict(entries) => Ok(done.push(entries)),
                _ => Err(ManifestFault::ItemNotMapping),
            },
        }
    }
}

/// The resources in one document: a mapping is one resource, a sequence holds one resource
/// in each item, an empty document holds none.
pub open spec fn document_resources(doc: Node) -> Result<Seq<Seq<(Node, Node)>>, ManifestFault> {
    match doc {
        Node::Null => Ok(Seq::empty()),
        Node::Dict(entries) => Ok(seq![entries]),
        Node::List(items) => item_resources(items),
        _ => Err(ManifestFault::DocumentNotMapping),
    }
}

/// The resources in a stream of documents, in order, or the first fault.
pub open spec fn stream_resources(docs: Seq<Node>) -> Result<Seq<Seq<(Node, Node)>>, ManifestFault>
    decreases docs.len(),
{
    if docs.len() == 0 {
        Ok(Seq::empty())
    } else {
        match stream_resources(docs.drop_last()) {
            Err(f) => Err(f),
            Ok(done) => match document_resources(docs.last()) {
                Err(f) => Err(f),
                Ok(more) => Ok(done + more),
            },
        }
    }
}

/// The resources that a text of YAML documents holds.
pub open spec fn text_resources(text: Seq<char>) -> Result<Seq<Seq<(Node, Node)>>, ManifestFault> {
    match parsed_documents(text) {
        None => Err(ManifestFault::Parse),
        Some(docs) => stream_resources(docs),
    }
}

/// The text of each resource, `None` where one cannot be written.
pub open spec fn resource_texts(resources: Seq<Seq<(Node, Node)>>) -> Option<Seq<Seq<char>>>
    decreases resources.len(),
{
    if resources.len() == 0 {
        Some(Seq::empty())
    } else {
        match resource_texts(resources.drop_last()) {
            None => None,
            Some(done) => match emitted_text(Node::Dict(resources.last())) {
                None => None,
                Some(t) => Some(done.push(t)),
            },
        }
    }
}

/// The manifests of one install: resources in the order in which they were rendered.
pub struct InstallResources {
    pub resources: Vec<serde_yaml::Mapping>,
}

impl View for InstallResources {
    type V = Seq<Seq<(Node, Node)>>;

    open spec fn view(&self) -> Seq<Seq<(Node, Node)>> {
        Seq::new(self.resources@.len(), |i: int| mapping_entries(self.resources@[i]))
    }
}

/// Puts `labels` into the mapping, one after the other.
fn insert_labels(m: &mut serde_yaml::Mapping, labels: &Vec<(String, String)>)
    ensures
        mapping_entries(*final(m)) == with_labels(mapping_entries(*old(m)), label_views(labels@)),
{
    let mut i: usize = 0;
    while i < labels.len()
        invariant
            i <= labels.len(),
            mapping_entries(*m) == with_labels(
                mapping_entries(*old(m)),
                label_views(labels@).subrange(0, i as int),
            ),
        decreases labels.len() - i,
    {
        proof {
            let before = label_views(labels@).subrange(0, i as int);
            let after = label_views(labels@).subrange(0, i + 1);
            assert(after.drop_last() =~= before);
            assert(after.last() == (labels@[i as int].0@, labels@[i as int].1@));
        }
        let k = text_value(labels[i].0.as_str());
        let v = text_value(labels[i].1.as_str());
        mapping_insert(m, k, v);
        i = i + 1;
    }
    assert(label_views(labels@).subrange(0, labels.len() as int) =~= label_views(labels@));
}

/// Labels one resource.
pub fn label_resource(resource: serde_yaml::Mapping, labels: &Vec<(String, String)>) -> (r: Result<
    serde_yaml::Mapping,
    ManifestError,
>)
    ensures
        match r {
            Ok(m) => labelled(mapping_entries(resource), label_views(labels@)) == Ok::<
                _,
                ManifestFault,
            >(mapping_entries(m)),
            Err(e) => labelled(mapping_entries(resource), label_views(labels@)) == Err::<
                Seq<(Node, Node)>,
                _,
            >(e.fault()),
        },
{
    let mut resource = resource;
    let mut metadata = match child_mapping(&resource, "metadata") {
        None => { return Err(ManifestError::MetadataNotMapping); },
        Some(m) => m,
    };
    let mut found = match child_mapping(&metadata, "labels") {
        None => { return Err(ManifestError::LabelsNotMapping); },
        Some(m) => m,
    };
    insert_labels(&mut found, labels);
    mapping_insert(&mut metadata, text_value("labels"), dict_value(found));
    mapping_insert(&mut resource, text_value("metadata"), dict_value(metadata));
    Ok(resource)
}

/// The two labels of the install `(name, version)`.
pub fn install_labels(name: &str, version: u32) -> (r: Vec<(String, String)>)
    ensures
        label_views(r@) == identity_labels(name@, version as nat),
{
    let mut value = String::from_str("v");
    let digits = decimal(version as u64);
    value.append(digits.as_str());
    let mut r: Vec<(String, String)> = Vec::new();
    r.push((String::from_str(TIED_TO_INSTALL_NAME_KEY), String::from_str(name)));
    r.push((String::from_str(TIED_TO_INSTALL_VERSION_KEY), value));
    assert(label_views(r@) =~= identity_labels(name@, version as nat));
    r
}

impl InstallResources {
    /// Reads the resources of a text of YAML documents.
    pub fn from_str(resources_str: &str) -> (r: Result<Self, ManifestError>)
        ensures
            match r {
                Ok(res) => text_resources(resources_str@) == Ok::<_, ManifestFault>(res@),
                Err(e) => text_resources(resources_str@) == Err::<Seq<Seq<(Node, Node)>>, _>(
                    e.fault(),
                ),
            },
    {
        let docs = match documents_from_text(resources_str) {
            Err(e) => { return Err(ManifestError::Parse(error_text(&e))); },
            Ok(docs) => docs,
        };
        let mut out = InstallResources { resources: Vec::new() };
        assert(out@ =~= Seq::empty());
        let mut i: usize = 0;
        while i < docs.len()
            invariant
                i <= docs.len(),
                stream_resources(nodes_of(docs@).subrange(0, i as int)) == Ok::<_, ManifestFault>(
                    out@,
                ),
                parsed_documents(resources_str@) == Some(nodes_of(docs@)),
            decreases docs.len() - i,
        {
            let ghost before = nodes_of(docs@).subrange(0, i as int);
            let ghost after = nodes_of(docs@).subrange(0, i + 1);
            let ghost had = out@;
            proof {
                assert(after.drop_last() =~= before);
                assert(after.last() == value_node(docs@[i as int]));
            }
            let fault: Option<ManifestError> = match shape_of(&docs[i]) {
                Shape::Null => {
                    proof {
                        assert(had + Seq::<Seq<(Node, Node)>>::empty() =~= had);
                    }
                    None
                },
                Shape::Dict(m) => {
                    out.push(m);
                    proof {
                        assert(out@ =~= had + seq![mapping_entries(m)]);
                    }
                    None
                },
                Shape::List(items) => {
                    if out.push_items(&items) {
                        None
                    } else {
                        Some(ManifestError::ItemNotMapping)
                    }
                },
                _ => Some(ManifestError::DocumentNotMapping),
            };
            match fault {
                Some(e) => {
                    proof {
                        lemma_stream_fault_stays(nodes_of(docs@), i as int);
                    }
                    return Err(e);
                },
                None => {},
            }
            i = i + 1;
        }
        proof {
            assert(nodes_of(docs@).subrange(0, docs.len() as int) =~= nodes_of(docs@));
        }
        Ok(out)
    }

    /// Adds one resource at the end.
    fn push(&mut self, m: serde_yaml::Mapping)
        ensures
            final(self)@ == old(self)@.push(mapping_entries(m)),
    {
        self.resources.push(m);
        assert(self@ =~= old(self)@.push(mapping_entries(m)));
    }

    /// Adds the resources of a sequence of items at the end; `false`, with some of them
    /// added, where an item is no mapping.
    fn push_items(&mut self, items: &Vec<serde_yaml::Value>) -> (ok: bool)
        ensures
            match item_resources(nodes_of(items@)) {
                Ok(part) => ok && final(self)@ == old(self)@ + part,
                Err(f) => !ok && f == ManifestFault::ItemNotMapping,
            },
    {
        let mut j: usize = 0;
        assert(self@ =~= old(self)@ + Seq::<Seq<(Node, Node)>>::empty());
        while j < items.len()
            invariant
                j <= items.len(),
                item_resources(nodes_of(items@).subrange(0, j as int)) matches Ok(part)
                    && self@ == old(self)@ + part,
            decreases items.len() - j,
        {
            let ghost before = nodes_of(items@).subrange(0, j as int);
            let ghost after = nodes_of(items@).subrange(0, j + 1);
            let ghost part = item_resources(before)->Ok_0;
            proof {
                assert(after.drop_last() =~= before);
                assert(after.last() == value_node(items@[j as int]));
            }
            match shape_of(&items[j]) {
                Shape::Dict(m) => {
                    self.push(m);
                    proof {
                        assert(self@ =~= old(self)@ + part.push(mapping_entries(m)));
                    }
                },
                _ => {
                    proof {
                        lemma_item_fault_stays(nodes_of(items@), j as int);
                    }
                    return false;
                },
            }
            j = j + 1;
        }
        proof {
            assert(nodes_of(items@).subrange(0, items.len() as int) =~= nodes_of(items@));
        }
        true
    }

    /// Writes each resource as YAML and joins the texts with a line of three dashes.
    pub fn to_string(&self) -> (r: Result<String, ManifestError>)
        ensures
            match r {
                Ok(s) => resource_texts(self@) matches Some(texts) && s@ == joined(
                    texts,
                    "\n---\n"@,
                ),
                Err(e) => resource_texts(self@) is None && e is Emit,
            },
    {
        let mut texts: Vec<String> = Vec::new();
        let mut i: usize = 0;
        while i < self.resources.len()
            invariant
                i <= self.resources.len(),
                resource_texts(self@.subrange(0, i as int)) == Some(views(texts@)),
            decreases self.resources.len() - i,
        {
            let ghost before = self@.subrange(0, i as int);
            let ghost after = self@.subrange(0, i + 1);
            proof {
                assert(after.drop_last() =~= before);
                assert(after.last() == mapping_entries(self.resources@[i as int]));
            }
            let value = dict_value(self.resources[i].clone());
            match to_text(&value) {
                Err(e) => {
                    proof {
                        lemma_texts_none_stays(self@, i as int);
                    }
                    return Err(ManifestError::Emit(error_text(&e)));
                },
                Ok(t) => {
                    let ghost had = views(texts@);
                    texts.push(t);
                    proof {
                        assert(views(texts@) =~= had.push(t@));
                    }
                },
            }
            i = i + 1;
        }
        proof {
            assert(self@.subrange(0, self.resources.len() as int) =~= self@);
        }
        Ok(join(&texts, "\n---\n"))
    }

    /// Puts `labels` on every resource.
    pub fn label_resources(self, labels: &Vec<(String, String)>) -> (r: Result<Self, ManifestError>)
        ensures
            match r {
                Ok(res) => all_labelled(self@, label_views(labels@)) == Ok::<_, ManifestFault>(
                    res@,
                ),
                Err(e) => all_labelled(self@, label_views(labels@)) == Err::<
                    Seq<Seq<(Node, Node)>>,
                    _,
                >(e.fault()),
            },
    {
        let mut out = InstallResources { resources: Vec::new() };
        assert(out@ =~= Seq::empty());
        let mut i: usize = 0;
        while i < self.resources.len()
            invariant
                i <= self.resources.len(),
                all_labelled(self@.subrange(0, i as int), label_views(labels@)) == Ok::<
                    _,
                    ManifestFault,
                >(out@),
            decreases self.resources.len() - i,
        {
            let ghost before = self@.subrange(0, i as int);
            let ghost after = self@.subrange(0, i + 1);
            let ghost had = out@;
            proof {
                assert(after.drop_last() =~= before);
                assert(after.last() == mapping_entries(self.resources@[i as int]));
            }
            match label_resource(self.resources[i].clone(), labels) {
                Err(e) => {
                    proof {
                        lemma_label_fault_stays(self@, label_views(labels@), i as int);
                    }
                    return Err(e);
                },
                Ok(m) => {
                    out.push(m);
                },
            }
            i = i + 1;
        }
        proof {
            assert(self@.subrange(0, self.resources.len() as int) =~= self@);
        }
        Ok(out)
    }

    /// Puts the two labels of the install `(name, version)` on every resource.
    pub fn label_resources_with(self, name: &str, version: u32) -> (r: Result<Self, ManifestError>)
        ensures
            match r {
                Ok(res) => all_labelled(self@, identity_labels(name@, version as nat)) == Ok::<
                    _,
                    ManifestFault,
                >(res@),
                Err(e) => all_labelled(self@, identity_labels(name@, version as nat)) == Err::<
                    Seq<Seq<(Node, Node)>>,
                    _,
                >(e.fault()),
            },
    {
        let labels = install_labels(name, version);
        self.label_resources(&labels)
    }
}

/// A fault among the first items is the fault of the whole sequence.
pub(crate) proof fn lemma_item_fault_stays(items: Seq<Node>, j: int)
    requires
        0 <= j < items.len(),
        item_resources(items.subrange(0, j + 1)) is Err,
    ensures
        item_resources(items) == item_resources(items.subrange(0, j + 1)),
    decreases items.len() - j,
{
    if j + 1 == items.len() {
        assert(items.subrange(0, j + 1) =~= items);
    } else {
        assert(items.subrange(0, j + 2).drop_last() =~= items.subrange(0, j + 1));
        lemma_item_fault_stays(items, j + 1);
    }
}

/// A fault among the first documents is the fault of the whole stream.
pub(crate) proof fn lemma_stream_fault_stays(docs: Seq<Node>, i: int)
    requires
        0 <= i < docs.len(),
        stream_resources(docs.subrange(0, i + 1)) is Err,
    ensures
        stream_resources(docs) == stream_resources(docs.subrange(0, i + 1)),
    decreases docs.len() - i,
{
    if i + 1 == docs.len() {
        assert(docs.subrange(0, i + 1) =~= docs);
    } else {
        assert(docs.subrange(0, i + 2).drop_last() =~= docs.subrange(0, i + 1));
        lemma_stream_fault_stays(docs, i + 1);
    }
}

/// A resource among the first that cannot be written leaves the whole without a text.
pub(crate) proof fn lemma_texts_none_stays(resources: Seq<Seq<(Node, Node)>>, i: int)
    requires
        0 <= i < resources.len(),
        resource_texts(resources.subrange(0, i + 1)) is None,
    ensures
        resource_texts(resources) is None,
    decreases resources.len() - i,
{
    if i + 1 == resources.len() {
        assert(resources.subrange(0, i + 1) =~= resources);
    } else {
        assert(resources.subrange(0, i + 2).drop_last() =~= resources.subrange(0, i + 1));
        lemma_texts_none_stays(resources, i + 1);
    }
}

/// A fault among the first resources is the fault of labelling them all.
pub(crate) proof fn lemma_label_fault_stays(
    resources: Seq<Seq<(Node, Node)>>,
    labels: Seq<(Seq<char>, Seq<char>)>,
    i: int,
)
    requires
        0 <= i < resources.len(),
        all_labelled(resources.subrange(0, i + 1), labels) is Err,
    ensures
        all_labelled(resources, labels) == all_labelled(resources.subrange(0, i + 1), labels),
    decreases resources.len() - i,
{
    if i + 1 == resources.len() {
        assert(resources.subrange(0, i + 1) =~= resources);
    } else {
        assert(resources.subrange(0, i + 2).drop_last() =~= resources.subrange(0, i + 1));
        lemma_label_fault_stays(resources, labels, i + 1);
    }
}

/// An install on a cluster: its name and, where it matters, its version.
pub struct InstallRef {
    pub name: String,
    pub version: Option<u32>,
}

/// The version of an install as a number of the model.
pub open spec fn version_view(version: Option<u32>) -> Option<nat> {
    match version {
        None => None,
        Some(v) => Some(v as nat),
    }
}

/// What a label selector for the install asks of a resource: the name label and, where a
/// version is given, the version label.
pub open spec fn selector_terms(name: Seq<char>, version: Option<nat>) -> Seq<
    (Seq<char>, Seq<char>),
> {
    match version {
        None => seq![(name_key(), name)],
        Some(v) => identity_labels(name, v),
    }
}

/// One requirement of a selector as text: key, equals sign, value.
pub open spec fn term_text(term: (Seq<char>, Seq<char>)) -> Seq<char> {
    term.0 + "="@ + term.1
}

/// The label selector for the install: its requirements, with commas between them.
pub open spec fn selector_text(name: Seq<char>, version: Option<nat>) -> Seq<char> {
    let terms = selector_terms(name, version);
    joined(Seq::new(terms.len(), |i: int| term_text(terms[i])), ","@)
}

/// Whether the labels meet every requirement.
pub open spec fn satisfies(labels: Seq<(Node, Node)>, terms: Seq<(Seq<char>, Seq<char>)>) -> bool {
    forall|i: int|
        0 <= i < terms.len() ==> lookup(labels, Node::Text((#[trigger] terms[i]).0)) == Some(
            Node::Text(terms[i].1),
        )
}

/// The labels of a resource: the entries of `metadata.labels`, none where there is no such
/// mapping.
pub open spec fn resource_labels(resource: Seq<(Node, Node)>) -> Seq<(Node, Node)> {
    match sub_mapping(resource, "metadata"@) {
        None => Seq::empty(),
        Some(metadata) => match sub_mapping(metadata, "labels"@) {
            None => Seq::empty(),
            Some(found) => found,
        },
    }
}

impl InstallRef {
    /// The label selector that finds the resources of this install.
    pub fn label_selector(&self) -> (r: String)
        ensures
            r@ == selector_text(self.name@, version_view(self.version)),
    {
        let mut r = String::from_str(TIED_TO_INSTALL_NAME_KEY);
        r.append("=");
        r.append(self.name.as_str());
        let ghost first = term_text((name_key(), self.name@));
        assert(r@ =~= first);
        match self.version {
            None => {
                proof {
                    let terms = selector_terms(self.name@, None);
                    let texts = Seq::new(terms.len(), |i: int| term_text(terms[i]));
                    assert(texts.len() == 1);
                    assert(texts[0] == first);
                }
            },
            Some(v) => {
                r.append(",");
                r.append(TIED_TO_INSTALL_VERSION_KEY);
                r.append("=");
                r.append("v");
                let digits = decimal(v as u64);
                r.append(digits.as_str());
                proof {
                    let terms = selector_terms(self.name@, Some(v as nat));
                    let texts = Seq::new(terms.len(), |i: int| term_text(terms[i]));
                    let second = term_text((version_key(), version_label(v as nat)));
                    assert(texts.len() == 2);
                    assert(texts[0] == first);
                    assert(texts[1] == second);
                    assert(texts.drop_last().len() == 1);
                    assert(texts.drop_last()[0] == first);
                    assert(joined(texts.drop_last(), ","@) == first);
                    assert(joined(texts, ","@) == first + ","@ + second);
                    assert(r@ =~= first + ","@ + second);
                }
            },
        }
        r
    }
}

/// The two label keys differ.
pub(crate) proof fn lemma_label_keys_differ()
    ensures
        name_key() != version_key(),
{
    reveal_strlit("mistletoe.dev/tied-to-install-name");
    reveal_strlit("mistletoe.dev/tied-to-install-version");
    assert(name_key().len() != version_key().len());
}

/// A resource that an install has labelled is found by the selector for that install, with
/// the version and without it: the labels written meet every requirement that inspecting or
/// uninstalling the same install sends to the cluster.
pub proof fn lemma_labelled_resource_is_selected(
    resource: Seq<(Node, Node)>,
    name: Seq<char>,
    version: nat,
)
    requires
        labelled(resource, identity_labels(name, version)) is Ok,
    ensures
        satisfies(
            resource_labels(labelled(resource, identity_labels(name, version))->Ok_0),
            selector_terms(name, Some(version)),
        ),
        satisfies(
            resource_labels(labelled(resource, identity_labels(name, version))->Ok_0),
            selector_terms(name, None),
        ),
{
    let labels = identity_labels(name, version);
    let metadata = sub_mapping(resource, "metadata"@)->0;
    let found = sub_mapping(metadata, "labels"@)->0;
    let written = with_labels(found, labels);
    let metadata2 = put(metadata, Node::Text("labels"@), Node::Dict(written));
    let out = put(resource, Node::Text("metadata"@), Node::Dict(metadata2));
    assert(labelled(resource, labels) == Ok::<_, ManifestFault>(out));
    lemma_lookup_put_same(resource, Node::Text("metadata"@), Node::Dict(metadata2));
    lemma_lookup_put_same(metadata, Node::Text("labels"@), Node::Dict(written));
    assert(resource_labels(out) == written);
    // the labels as they were written, one after the other
    let first = labels.drop_last();
    assert(first.len() == 1);
    assert(first.drop_last().len() == 0);
    assert(first.last() == (name_key(), name));
    assert(labels.last() == (version_key(), version_label(version)));
    let after_name = put(found, Node::Text(name_key()), Node::Text(name));
    assert(with_labels(found, first.drop_last()) == found);
    assert(with_labels(found, first) == after_name);
    assert(written == put(
        after_name,
        Node::Text(version_key()),
        Node::Text(version_label(version)),
    ));
    lemma_lookup_put_same(found, Node::Text(name_key()), Node::Text(name));
    lemma_lookup_put_same(
        after_name,
        Node::Text(version_key()),
        Node::Text(version_label(version)),
    );
    lemma_label_keys_differ();
    lemma_lookup_put_other(
        after_name,
        Node::Text(version_key()),
        Node::Text(version_label(version)),
        Node::Text(name_key()),
    );
}

/// Labelling is idempotent: a resource that an install has labelled is left as it is when
/// the same install labels it again.
pub proof fn lemma_labelling_is_idempotent(resource: Seq<(Node, Node)>, name: Seq<char>, version: nat)
    requires
        labelled(resource, identity_labels(name, version)) is Ok,
    ensures
        labelled(
            labelled(resource, identity_labels(name, version))->Ok_0,
            identity_labels(name, version),
        ) == labelled(resource, identity_labels(name, version)),
{
    let labels = identity_labels(name, version);
    let metadata = sub_mapping(resource, "metadata"@)->0;
    let found = sub_mapping(metadata, "labels"@)->0;
    let first = labels.drop_last();
    assert(first.len() == 1);
    assert(first.drop_last().len() == 0);
    assert(first.last() == (name_key(), name));
    assert(labels.last() == (version_key(), version_label(version)));
    let k1 = Node::Text(name_key());
    let v1 = Node::Text(name);
    let k2 = Node::Text(version_key());
    let v2 = Node::Text(version_label(version));
    let after_name = put(found, k1, v1);
    assert(with_labels(found, first.drop_last()) == found);
    assert(with_labels(found, first) == after_name);
    let written = put(after_name, k2, v2);
    assert(with_labels(found, labels) == written);
    let metadata2 = put(metadata, Node::Text("labels"@), Node::Dict(written));
    let out = put(resource, Node::Text("metadata"@), Node::Dict(metadata2));
    assert(labelled(resource, labels) == Ok::<_, ManifestFault>(out));
    // what the second labelling finds
    lemma_lookup_put_same(resource, Node::Text("metadata"@), Node::Dict(metadata2));
    lemma_lookup_put_same(metadata, Node::Text("labels"@), Node::Dict(written));
    assert(sub_mapping(out, "metadata"@) == Some(metadata2));
    assert(sub_mapping(metadata2, "labels"@) == Some(written));
    // the labels are there already
    lemma_label_keys_differ();
    lemma_lookup_put_same(found, k1, v1);
    lemma_lookup_put_other(after_name, k2, v2, k1);
    lemma_lookup_put_same(after_name, k2, v2);
    lemma_put_unchanged(written, k1, v1);
    lemma_put_unchanged(written, k2, v2);
    assert(with_labels(written, first.drop_last()) == written);
    assert(with_labels(written, first) == written);
    assert(with_labels(written, labels) == written);
    lemma_put_unchanged(metadata2, Node::Text("labels"@), Node::Dict(written));
    lemma_put_unchanged(out, Node::Text("metadata"@), Node::Dict(metadata2));
}

} // verus!

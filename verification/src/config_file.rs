//! The configuration as a YAML document.

use crate::api::envelope::{read_document, EnvelopeError, EnvelopeFault};
use crate::config::{ConfigLayout, GitRemoteLayout, RegistryLayout, RemoteLayout, SpecLayout};
use crate::document::{
    scalar_text, text_of_scalar, keyed_entries, list_at, list_under, mapping_at, mapping_of,
    mapping_under, text_at, text_under,
};
use crate::ordered::{distinct_keys, lemma_lookup_at, lookup};
use crate::yaml::{
    dict_value, emitted_text, error_text, list_value, mapping_entries, mapping_get, nodes_of,
    parsed_node, shape_of, text_value, to_text, value_node, Node, Shape,
};
use vstd::prelude::*;
use vstd::string::*;

verus! {

pub struct RemoteView {
    pub name: Seq<char>,
    pub url: Seq<char>,
}

pub struct RegistryView {
    pub name: Seq<char>,
    pub default_remote: Seq<char>,
    pub remotes: Seq<RemoteView>,
}

pub struct ConfigView {
    pub api_version: Seq<char>,
    pub kind: Seq<char>,
    pub registries: Seq<RegistryView>,
}

impl View for RemoteLayout {
    type V = RemoteView;

    open spec fn view(&self) -> RemoteView {
        RemoteView { name: self.name_text(), url: self.url_text() }
    }
}

pub open spec fn remote_views(remotes: Seq<RemoteLayout>) -> Seq<RemoteView> {
    Seq::new(remotes.len(), |i: int| remotes[i]@)
}

impl View for RegistryLayout {
    type V = RegistryView;

    open spec fn view(&self) -> RegistryView {
        RegistryView {
            name: self.name@,
            default_remote: self.default_remote@,
            remotes: remote_views(self.remotes@),
        }
    }
}

pub open spec fn registry_views(registries: Seq<RegistryLayout>) -> Seq<RegistryView> {
    Seq::new(registries.len(), |i: int| registries[i]@)
}

impl View for ConfigLayout {
    type V = ConfigView;

    open spec fn view(&self) -> ConfigView {
        ConfigView {
            api_version: self.api_version@,
            kind: self.kind@,
            registries: registry_views(self.spec.registries@),
        }
    }
}

/// The document for a remote.
pub open spec fn remote_node(r: RemoteView) -> Node {
    Node::Dict(
        seq![
            (Node::Text("name"@), Node::Text(r.name)),
            (Node::Text("git"@), Node::Dict(seq![(Node::Text("url"@), Node::Text(r.url))])),
        ],
    )
}

pub open spec fn remote_nodes(remotes: Seq<RemoteView>) -> Seq<Node> {
    Seq::new(remotes.len(), |i: int| remote_node(remotes[i]))
}

/// The document for a registry.
pub open spec fn registry_node(r: RegistryView) -> Node {
    Node::Dict(
        seq![
            (Node::Text("name"@), Node::Text(r.name)),
            (Node::Text("defaultRemote"@), Node::Text(r.default_remote)),
            (Node::Text("remotes"@), Node::List(remote_nodes(r.remotes))),
        ],
    )
}

pub open spec fn registry_nodes(registries: Seq<RegistryView>) -> Seq<Node> {
    Seq::new(registries.len(), |i: int| registry_node(registries[i]))
}

/// The document for a configuration.
pub open spec fn config_document(c: ConfigView) -> Node {
    Node::Dict(
        seq![
            (Node::Text("apiVersion"@), Node::Text(c.api_version)),
            (Node::Text("kind"@), Node::Text(c.kind)),
            (
                Node::Text("spec"@),
                Node::Dict(
                    seq![(Node::Text("registries"@), Node::List(registry_nodes(c.registries)))],
                ),
            ),
        ],
    )
}

/// The remote that a document describes. A remote must have a name and a `git` block with
/// a `url`: any other kind of remote is refused.
pub open spec fn read_remote(n: Node) -> Option<RemoteView> {
    match n {
        Node::Dict(entries) => match (text_at(entries, "name"@), mapping_at(entries, "git"@)) {
            (Some(name), Some(git)) => match text_at(git, "url"@) {
                Some(url) => Some(RemoteView { name, url }),
                None => None,
            },
            _ => None,
        },
        _ => None,
    }
}

pub open spec fn read_remotes(items: Seq<Node>) -> Option<Seq<RemoteView>>
    decreases items.len(),
{
    if items.len() == 0 {
        Some(Seq::empty())
    } else {
        match (read_remotes(items.drop_last()), read_remote(items.last())) {
            (Some(done), Some(r)) => Some(done.push(r)),
            _ => None,
        }
    }
}

/// The registry that a document describes.
pub open spec fn read_registry(n: Node) -> Option<RegistryView> {
    match n {
        Node::Dict(entries) => match (
            text_at(entries, "name"@),
            text_at(entries, "defaultRemote"@),
            list_at(entries, "remotes"@),
        ) {
            (Some(name), Some(default_remote), Some(items)) => match read_remotes(items) {
                Some(remotes) => Some(RegistryView { name, default_remote, remotes }),
                None => None,
            },
            _ => None,
        },
        _ => None,
    }
}

pub open spec fn read_registries(items: Seq<Node>) -> Option<Seq<RegistryView>>
    decreases items.len(),
{
    if items.len() == 0 {
        Some(Seq::empty())
    } else {
        match (read_registries(items.drop_last()), read_registry(items.last())) {
            (Some(done), Some(r)) => Some(done.push(r)),
            _ => None,
        }
    }
}

/// The text under `key`, or the text that stands for it where the key is missing; `None`
/// where the key holds anything but a scalar.
pub open spec fn text_or(entries: Seq<(Node, Node)>, key: Seq<char>, fixed: Seq<char>) -> Option<
    Seq<char>,
> {
    match lookup(entries, Node::Text(key)) {
        None => Some(fixed),
        Some(n) => scalar_text(n),
    }
}

/// The configuration that a document holds. Version and kind may be left out and are then
/// those of this tool; `spec.registries` must be there.
pub open spec fn read_config(doc: Node) -> Option<ConfigView> {
    match doc {
        Node::Dict(top) => match (
            text_or(top, "apiVersion"@, "mistletoe.dev/v1alpha1"@),
            text_or(top, "kind"@, "MistletoeConfig"@),
            mapping_at(top, "spec"@),
        ) {
            (Some(api_version), Some(kind), Some(block)) => match list_at(block, "registries"@) {
                None => None,
                Some(items) => match read_registries(items) {
                    None => None,
                    Some(registries) => Some(ConfigView { api_version, kind, registries }),
                },
            },
            _ => None,
        },
        _ => None,
    }
}

/// The configuration that a text holds.
pub open spec fn parsed_config(text: Seq<char>) -> Result<ConfigView, EnvelopeFault> {
    match parsed_node(text) {
        None => Err(EnvelopeFault::Parse),
        Some(doc) => match read_config(doc) {
            None => Err(EnvelopeFault::Malformed),
            Some(c) => Ok(c),
        },
    }
}

/// Reads one remote.
fn remote_of(v: &serde_yaml::Value) -> (r: Option<RemoteLayout>)
    ensures
        match r {
            Some(remote) => read_remote(value_node(*v)) == Some(remote@),
            None => read_remote(value_node(*v)) is None,
        },
{
    let entries = match shape_of(v) {
        Shape::Dict(m) => m,
        _ => { return None; },
    };
    let name = match text_under(&entries, "name") {
        None => { return None; },
        Some(name) => name,
    };
    let git = match mapping_under(&entries, "git") {
        None => { return None; },
        Some(git) => git,
    };
    match text_under(&git, "url") {
        None => None,
        Some(url) => Some(RemoteLayout::Git { name, git: GitRemoteLayout { url } }),
    }
}

/// Reads the remotes of a registry.
fn remotes_of(items: &Vec<serde_yaml::Value>) -> (r: Option<Vec<RemoteLayout>>)
    ensures
        match r {
            Some(remotes) => read_remotes(nodes_of(items@)) == Some(remote_views(remotes@)),
            None => read_remotes(nodes_of(items@)) is None,
        },
{
    let mut remotes: Vec<RemoteLayout> = Vec::new();
    let mut i: usize = 0;
    assert(remote_views(remotes@) =~= Seq::empty());
    while i < items.len()
        invariant
            i <= items.len(),
            read_remotes(nodes_of(items@).subrange(0, i as int)) == Some(remote_views(remotes@)),
        decreases items.len() - i,
    {
        let ghost had = remote_views(remotes@);
        proof {
            assert(nodes_of(items@).subrange(0, i + 1).drop_last() =~= nodes_of(items@).subrange(
                0,
                i as int,
            ));
            assert(nodes_of(items@).subrange(0, i + 1).last() == value_node(items@[i as int]));
        }
        match remote_of(&items[i]) {
            None => {
                proof {
                    lemma_remotes_none_stays(nodes_of(items@), i as int);
                }
                return None;
            },
            Some(remote) => {
                remotes.push(remote);
                assert(remote_views(remotes@) =~= had.push(remote@));
            },
        }
        i = i + 1;
    }
    assert(nodes_of(items@).subrange(0, items.len() as int) =~= nodes_of(items@));
    Some(remotes)
}

/// Reads one registry.
fn registry_of(v: &serde_yaml::Value) -> (r: Option<RegistryLayout>)
    ensures
        match r {
            Some(registry) => read_registry(value_node(*v)) == Some(registry@),
            None => read_registry(value_node(*v)) is None,
        },
{
    let entries = match shape_of(v) {
        Shape::Dict(m) => m,
        _ => { return None; },
    };
    let name = match text_under(&entries, "name") {
        None => { return None; },
        Some(name) => name,
    };
    let default_remote = match text_under(&entries, "defaultRemote") {
        None => { return None; },
        Some(d) => d,
    };
    let items = match list_under(&entries, "remotes") {
        None => { return None; },
        Some(items) => items,
    };
    match remotes_of(&items) {
        None => None,
        Some(remotes) => Some(RegistryLayout { name, default_remote, remotes }),
    }
}

/// Reads the registries of a configuration.
fn registries_of(items: &Vec<serde_yaml::Value>) -> (r: Option<Vec<RegistryLayout>>)
    ensures
        match r {
            Some(registries) => read_registries(nodes_of(items@)) == Some(
                registry_views(registries@),
            ),
            None => read_registries(nodes_of(items@)) is None,
        },
{
    let mut registries: Vec<RegistryLayout> = Vec::new();
    let mut i: usize = 0;
    assert(registry_views(registries@) =~= Seq::empty());
    while i < items.len()
        invariant
            i <= items.len(),
            read_registries(nodes_of(items@).subrange(0, i as int)) == Some(
                registry_views(registries@),
            ),
        decreases items.len() - i,
    {
        let ghost had = registry_views(registries@);
        proof {
            assert(nodes_of(items@).subrange(0, i + 1).drop_last() =~= nodes_of(items@).subrange(
                0,
                i as int,
            ));
            assert(nodes_of(items@).subrange(0, i + 1).last() == value_node(items@[i as int]));
        }
        match registry_of(&items[i]) {
            None => {
                proof {
                    lemma_registries_none_stays(nodes_of(items@), i as int);
                }
                return None;
            },
            Some(registry) => {
                registries.push(registry);
                assert(registry_views(registries@) =~= had.push(registry@));
            },
        }
        i = i + 1;
    }
    assert(nodes_of(items@).subrange(0, items.len() as int) =~= nodes_of(items@));
    Some(registries)
}

/// A remote among the first that cannot be read leaves the whole unread.
pub(crate) proof fn lemma_remotes_none_stays(items: Seq<Node>, i: int)
    requires
        0 <= i < items.len(),
        read_remotes(items.subrange(0, i + 1)) is None,
    ensures
        read_remotes(items) is None,
    decreases items.len() - i,
{
    if i + 1 == items.len() {
        assert(items.subrange(0, i + 1) =~= items);
    } else {
        assert(items.subrange(0, i + 2).drop_last() =~= items.subrange(0, i + 1));
        lemma_remotes_none_stays(items, i + 1);
    }
}

/// A registry among the first that cannot be read leaves the whole unread.
pub(crate) proof fn lemma_registries_none_stays(items: Seq<Node>, i: int)
    requires
        0 <= i < items.len(),
        read_registries(items.subrange(0, i + 1)) is None,
    ensures
        read_registries(items) is None,
    decreases items.len() - i,
{
    if i + 1 == items.len() {
        assert(items.subrange(0, i + 1) =~= items);
    } else {
        assert(items.subrange(0, i + 2).drop_last() =~= items.subrange(0, i + 1));
        lemma_registries_none_stays(items, i + 1);
    }
}

/// The text under `key`, or the fixed text where the key is missing; the error is `()`.
fn text_or_fixed(m: &serde_yaml::Mapping, key: &str, fixed: &str) -> (r: Result<String, ()>)
    ensures
        match r {
            Ok(t) => text_or(mapping_entries(*m), key@, fixed@) == Some(t@),
            Err(_) => text_or(mapping_entries(*m), key@, fixed@) is None,
        },
{
    match mapping_get(m, key) {
        None => Ok(String::from_str(fixed)),
        Some(v) => match text_of_scalar(&v) {
            Some(t) => Ok(t),
            None => Err(()),
        },
    }
}

/// The value for one remote.
fn remote_value(remote: &RemoteLayout) -> (v: serde_yaml::Value)
    ensures
        value_node(v) == remote_node(remote@),
{
    let mut git: Vec<(String, serde_yaml::Value)> = Vec::new();
    git.push((String::from_str("url"), text_value(remote.url())));
    let block = dict_value(mapping_of(git));
    let mut fields: Vec<(String, serde_yaml::Value)> = Vec::new();
    fields.push((String::from_str("name"), text_value(remote.name())));
    fields.push((String::from_str("git"), block));
    proof {
        reveal_strlit("name");
        reveal_strlit("git");
        assert("name"@.len() != "git"@.len());
        assert(keyed_entries(git@) =~= seq![(Node::Text("url"@), Node::Text(remote@.url))]);
        assert(keyed_entries(fields@) =~= seq![
            (Node::Text("name"@), Node::Text(remote@.name)),
            (
                Node::Text("git"@),
                Node::Dict(seq![(Node::Text("url"@), Node::Text(remote@.url))]),
            ),
        ]);
    }
    dict_value(mapping_of(fields))
}

/// The value for one registry.
fn registry_value(registry: &RegistryLayout) -> (v: serde_yaml::Value)
    ensures
        value_node(v) == registry_node(registry@),
{
    let mut remotes: Vec<serde_yaml::Value> = Vec::new();
    let mut i: usize = 0;
    assert(nodes_of(remotes@) =~= remote_nodes(registry@.remotes).subrange(0, 0));
    while i < registry.remotes.len()
        invariant
            i <= registry.remotes.len(),
            nodes_of(remotes@) == remote_nodes(registry@.remotes).subrange(0, i as int),
        decreases registry.remotes.len() - i,
    {
        let ghost had = nodes_of(remotes@);
        let v = remote_value(&registry.remotes[i]);
        remotes.push(v);
        proof {
            assert(nodes_of(remotes@) =~= had.push(value_node(v)));
            assert(had.push(value_node(v)) =~= remote_nodes(registry@.remotes).subrange(
                0,
                i + 1,
            ));
        }
        i = i + 1;
    }
    assert(remote_nodes(registry@.remotes).subrange(0, registry.remotes.len() as int)
        =~= remote_nodes(registry@.remotes));
    let mut fields: Vec<(String, serde_yaml::Value)> = Vec::new();
    fields.push((String::from_str("name"), text_value(registry.name.as_str())));
    fields.push((String::from_str("defaultRemote"), text_value(registry.default_remote.as_str())));
    fields.push((String::from_str("remotes"), list_value(remotes)));
    proof {
        reveal_strlit("name");
        reveal_strlit("defaultRemote");
        reveal_strlit("remotes");
        assert forall|a: int, b: int| 0 <= a < b < fields@.len() implies (#[trigger] fields@[a]).0@
            != (#[trigger] fields@[b]).0@ by {
            assert(fields@[0].0@ == "name"@);
            assert(fields@[1].0@ == "defaultRemote"@);
            assert(fields@[2].0@ == "remotes"@);
            assert(fields@[a].0@.len() != fields@[b].0@.len());
        }
        assert(keyed_entries(fields@) =~= seq![
            (Node::Text("name"@), Node::Text(registry@.name)),
            (Node::Text("defaultRemote"@), Node::Text(registry@.default_remote)),
            (Node::Text("remotes"@), Node::List(remote_nodes(registry@.remotes))),
        ]);
    }
    dict_value(mapping_of(fields))
}

impl ConfigLayout {
    /// Reads a configuration from its YAML document.
    pub fn from_str(config_str: &str) -> (r: Result<Self, EnvelopeError>)
        ensures
            match r {
                Ok(config) => parsed_config(config_str@) == Ok::<_, EnvelopeFault>(config@),
                Err(e) => parsed_config(config_str@) == Err::<ConfigView, _>(e.fault()),
            },
    {
        let doc = match read_document(config_str) {
            Err(e) => { return Err(e); },
            Ok(doc) => doc,
        };
        let top = match shape_of(&doc) {
            Shape::Dict(top) => top,
            _ => {
                return Err(
                    EnvelopeError::Malformed(String::from_str("expected a mapping at the root")),
                );
            },
        };
        let api_version = match text_or_fixed(&top, "apiVersion", "mistletoe.dev/v1alpha1") {
            Err(_) => {
                return Err(
                    EnvelopeError::Malformed(String::from_str("`apiVersion` must be a string")),
                );
            },
            Ok(t) => t,
        };
        let kind = match text_or_fixed(&top, "kind", "MistletoeConfig") {
            Err(_) => {
                return Err(EnvelopeError::Malformed(String::from_str("`kind` must be a string")));
            },
            Ok(t) => t,
        };
        let block = match mapping_under(&top, "spec") {
            None => {
                return Err(EnvelopeError::Malformed(String::from_str("missing field `spec`")));
            },
            Some(block) => block,
        };
        let items = match list_under(&block, "registries") {
            None => {
                return Err(
                    EnvelopeError::Malformed(String::from_str("missing field `registries`")),
                );
            },
            Some(items) => items,
        };
        match registries_of(&items) {
            None => Err(
                EnvelopeError::Malformed(
                    String::from_str("a registry or one of its remotes is malformed"),
                ),
            ),
            Some(registries) => Ok(
                ConfigLayout { api_version, kind, spec: SpecLayout { registries } },
            ),
        }
    }

    /// Writes the configuration as its YAML document.
    pub fn to_yaml(&self) -> (r: Result<String, EnvelopeError>)
        ensures
            match r {
                Ok(s) => emitted_text(config_document(self@)) == Some(s@),
                Err(e) => emitted_text(config_document(self@)) is None && e is Emit,
            },
    {
        let v = list_value(registry_values(&self.spec.registries));
        let mut inner: Vec<(String, serde_yaml::Value)> = Vec::new();
        inner.push((String::from_str("registries"), v));
        let block = dict_value(mapping_of(inner));
        let mut fields: Vec<(String, serde_yaml::Value)> = Vec::new();
        fields.push((String::from_str("apiVersion"), text_value(self.api_version.as_str())));
        fields.push((String::from_str("kind"), text_value(self.kind.as_str())));
        fields.push((String::from_str("spec"), block));
        proof {
            reveal_strlit("apiVersion");
            reveal_strlit("kind");
            reveal_strlit("spec");
            assert("kind"@[0] != "spec"@[0]);
            assert forall|a: int, b: int| 0 <= a < b < fields@.len() implies (
            #[trigger] fields@[a]).0@ != (#[trigger] fields@[b]).0@ by {
                assert(fields@[0].0@ == "apiVersion"@);
                assert(fields@[1].0@ == "kind"@);
                assert(fields@[2].0@ == "spec"@);
            }
            assert(keyed_entries(inner@) =~= seq![
                (Node::Text("registries"@), Node::List(registry_nodes(self@.registries))),
            ]);
            assert(keyed_entries(fields@) =~= seq![
                (Node::Text("apiVersion"@), Node::Text(self@.api_version)),
                (Node::Text("kind"@), Node::Text(self@.kind)),
                (
                    Node::Text("spec"@),
                    Node::Dict(
                        seq![
                            (
                                Node::Text("registries"@),
                                Node::List(registry_nodes(self@.registries)),
                            ),
                        ],
                    ),
                ),
            ]);
        }
        let doc = dict_value(mapping_of(fields));
        match to_text(&doc) {
            Ok(s) => Ok(s),
            Err(e) => Err(EnvelopeError::Emit(error_text(&e))),
        }
    }
}

/// The values for the registries, in their order.
pub fn registry_values(registries: &Vec<RegistryLayout>) -> (r: Vec<serde_yaml::Value>)
    ensures
        nodes_of(r@) == registry_nodes(registry_views(registries@)),
{
    let ghost all = registry_nodes(registry_views(registries@));
    let mut out: Vec<serde_yaml::Value> = Vec::new();
    let mut i: usize = 0;
    assert(nodes_of(out@) =~= all.subrange(0, 0));
    while i < registries.len()
        invariant
            i <= registries.len(),
            all == registry_nodes(registry_views(registries@)),
            nodes_of(out@) == all.subrange(0, i as int),
        decreases registries.len() - i,
    {
        let ghost had = nodes_of(out@);
        let v = registry_value(&registries[i]);
        out.push(v);
        proof {
            assert(nodes_of(out@) =~= had.push(value_node(v)));
            assert(had.push(value_node(v)) =~= all.subrange(0, i + 1));
        }
        i = i + 1;
    }
    assert(all.subrange(0, registries.len() as int) =~= all);
    out
}

/// Reading the document of a remote gives the remote back.
pub(crate) proof fn lemma_remote_round_trip(r: RemoteView)
    ensures
        read_remote(remote_node(r)) == Some(r),
{
    reveal_strlit("name");
    reveal_strlit("git");
    reveal_strlit("url");
    assert("name"@.len() != "git"@.len());
    let git = seq![(Node::Text("url"@), Node::Text(r.url))];
    let entries = seq![
        (Node::Text("name"@), Node::Text(r.name)),
        (Node::Text("git"@), Node::Dict(git)),
    ];
    assert(remote_node(r) == Node::Dict(entries));
    assert(distinct_keys(entries));
    assert(distinct_keys(git));
    lemma_lookup_at(entries, 0);
    lemma_lookup_at(entries, 1);
    lemma_lookup_at(git, 0);
}

/// Reading the documents of remotes gives the remotes back, in their order.
pub(crate) proof fn lemma_remotes_round_trip(remotes: Seq<RemoteView>)
    ensures
        read_remotes(remote_nodes(remotes)) == Some(remotes),
    decreases remotes.len(),
{
    if remotes.len() == 0 {
        assert(remotes =~= Seq::empty());
    } else {
        lemma_remotes_round_trip(remotes.drop_last());
        lemma_remote_round_trip(remotes.last());
        assert(remote_nodes(remotes).drop_last() =~= remote_nodes(remotes.drop_last()));
        assert(remotes.drop_last().push(remotes.last()) =~= remotes);
    }
}

/// Reading the document of a registry gives the registry back.
pub(crate) proof fn lemma_registry_round_trip(r: RegistryView)
    ensures
        read_registry(registry_node(r)) == Some(r),
{
    reveal_strlit("name");
    reveal_strlit("defaultRemote");
    reveal_strlit("remotes");
    let entries = seq![
        (Node::Text("name"@), Node::Text(r.name)),
        (Node::Text("defaultRemote"@), Node::Text(r.default_remote)),
        (Node::Text("remotes"@), Node::List(remote_nodes(r.remotes))),
    ];
    assert(registry_node(r) == Node::Dict(entries));
    assert(distinct_keys(entries)) by {
        assert("name"@.len() == 4 && "defaultRemote"@.len() == 13 && "remotes"@.len() == 7);
    }
    lemma_lookup_at(entries, 0);
    lemma_lookup_at(entries, 1);
    lemma_lookup_at(entries, 2);
    lemma_remotes_round_trip(r.remotes);
}

/// Reading the documents of registries gives the registries back, in their order.
pub(crate) proof fn lemma_registries_round_trip(registries: Seq<RegistryView>)
    ensures
        read_registries(registry_nodes(registries)) == Some(registries),
    decreases registries.len(),
{
    if registries.len() == 0 {
        assert(registries =~= Seq::empty());
    } else {
        lemma_registries_round_trip(registries.drop_last());
        lemma_registry_round_trip(registries.last());
        assert(registry_nodes(registries).drop_last() =~= registry_nodes(
            registries.drop_last(),
        ));
        assert(registries.drop_last().push(registries.last()) =~= registries);
    }
}

/// Reading the document that is written for a configuration gives the configuration back,
/// with its registries and their remotes in their order.
pub proof fn lemma_config_document_round_trip(c: ConfigView)
    ensures
        read_config(config_document(c)) == Some(c),
{
    reveal_strlit("apiVersion");
    reveal_strlit("kind");
    reveal_strlit("spec");
    reveal_strlit("registries");
    assert("kind"@[0] != "spec"@[0]);
    let block = seq![(Node::Text("registries"@), Node::List(registry_nodes(c.registries)))];
    let top = seq![
        (Node::Text("apiVersion"@), Node::Text(c.api_version)),
        (Node::Text("kind"@), Node::Text(c.kind)),
        (Node::Text("spec"@), Node::Dict(block)),
    ];
    assert(config_document(c) == Node::Dict(top));
    assert(distinct_keys(top)) by {
        assert("apiVersion"@.len() == 10 && "kind"@.len() == 4 && "spec"@.len() == 4);
    }
    assert(distinct_keys(block));
    lemma_lookup_at(top, 0);
    lemma_lookup_at(top, 1);
    lemma_lookup_at(top, 2);
    lemma_lookup_at(block, 0);
    lemma_registries_round_trip(c.registries);
}

} // verus!

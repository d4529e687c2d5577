//! Reading and building YAML documents: verified steps over the calls of [`crate::yaml`].

use crate::index_map::{index_map_entries, index_map_insert, index_map_new};
use crate::ordered::{distinct_keys, has_key, lemma_put_new, lookup, put};
use crate::yaml::{
    entries_of, mapping_entries, mapping_get, mapping_insert, mapping_new, mapping_pairs, shape_of,
    text_value, value_node, Node, Shape,
};
use vstd::prelude::*;
use vstd::string::*;

verus! {

/// The text of a scalar: a text as it stands, a number by its canonical text, a truth value
/// as `true` or `false`. Nothing else has a text.
pub open spec fn scalar_text(n: Node) -> Option<Seq<char>> {
    match n {
        Node::Text(t) => Some(t),
        Node::Number(t) => Some(t),
        Node::Bool(b) => Some(
            if b {
                "true"@
            } else {
                "false"@
            },
        ),
        _ => None,
    }
}

/// The text under `key`, where the entry holds a scalar.
pub open spec fn text_at(entries: Seq<(Node, Node)>, key: Seq<char>) -> Option<Seq<char>> {
    match lookup(entries, Node::Text(key)) {
        Some(n) => scalar_text(n),
        None => None,
    }
}

/// The text under `key`, where the entry holds a text and nothing else.
pub open spec fn string_at(entries: Seq<(Node, Node)>, key: Seq<char>) -> Option<Seq<char>> {
    match lookup(entries, Node::Text(key)) {
        Some(Node::Text(t)) => Some(t),
        _ => None,
    }
}

/// The text under `key` that may be left out: no text where the key is missing or null, and
/// `None` where the key holds anything but a scalar.
pub open spec fn optional_text_at(entries: Seq<(Node, Node)>, key: Seq<char>) -> Option<
    Option<Seq<char>>,
> {
    match lookup(entries, Node::Text(key)) {
        None => Some(None),
        Some(Node::Null) => Some(None),
        Some(n) => match scalar_text(n) {
            Some(t) => Some(Some(t)),
            None => None,
        },
    }
}

/// The mapping under `key`, where the entry holds a mapping.
pub open spec fn mapping_at(entries: Seq<(Node, Node)>, key: Seq<char>) -> Option<
    Seq<(Node, Node)>,
> {
    match lookup(entries, Node::Text(key)) {
        Some(Node::Dict(inner)) => Some(inner),
        _ => None,
    }
}

/// The items of the sequence under `key`, where the entry holds a sequence.
pub open spec fn list_at(entries: Seq<(Node, Node)>, key: Seq<char>) -> Option<Seq<Node>> {
    match lookup(entries, Node::Text(key)) {
        Some(Node::List(items)) => Some(items),
        _ => None,
    }
}

/// The mapping under `key` that may be left out: its entries, none where the key is missing
/// or null, and `None` where the key holds anything else.
pub open spec fn sub_mapping(entries: Seq<(Node, Node)>, key: Seq<char>) -> Option<
    Seq<(Node, Node)>,
> {
    match lookup(entries, Node::Text(key)) {
        None => Some(Seq::empty()),
        Some(Node::Null) => Some(Seq::empty()),
        Some(Node::Dict(inner)) => Some(inner),
        Some(_) => None,
    }
}

/// Pairs of texts as the entries of a mapping.
pub open spec fn text_entries(pairs: Seq<(Seq<char>, Seq<char>)>) -> Seq<(Node, Node)> {
    Seq::new(pairs.len(), |i: int| (Node::Text(pairs[i].0), Node::Text(pairs[i].1)))
}

/// The texts that the entries hold, by key, `None` where a key or a value is no scalar. A
/// key whose text came before keeps its place and gets the later value.
pub open spec fn read_texts(entries: Seq<(Node, Node)>) -> Option<Seq<(Seq<char>, Seq<char>)>>
    decreases entries.len(),
{
    if entries.len() == 0 {
        Some(Seq::empty())
    } else {
        match (
            read_texts(entries.drop_last()),
            scalar_text(entries.last().0),
            scalar_text(entries.last().1),
        ) {
            (Some(done), Some(k), Some(v)) => Some(put(done, k, v)),
            _ => None,
        }
    }
}

/// Keyed values as the entries of a mapping.
pub open spec fn keyed_entries(fields: Seq<(String, serde_yaml::Value)>) -> Seq<(Node, Node)> {
    Seq::new(fields.len(), |i: int| (Node::Text(fields[i].0@), value_node(fields[i].1)))
}

/// The keys of the fields differ from each other.
pub open spec fn distinct_names(fields: Seq<(String, serde_yaml::Value)>) -> bool {
    forall|i: int, j: int|
        0 <= i < j < fields.len() ==> (#[trigger] fields[i]).0@ != (#[trigger] fields[j]).0@
}

/// The text of a scalar value.
pub fn text_of_scalar(v: &serde_yaml::Value) -> (r: Option<String>)
    ensures
        match r {
            Some(t) => scalar_text(value_node(*v)) == Some(t@),
            None => scalar_text(value_node(*v)) is None,
        },
{
    match shape_of(v) {
        Shape::Text(t) => Some(t),
        Shape::Number(t) => Some(t),
        Shape::Bool(b) => if b {
            Some(String::from_str("true"))
        } else {
            Some(String::from_str("false"))
        },
        _ => None,
    }
}

/// The text under `key` of a mapping, where the entry holds a scalar.
pub fn text_under(m: &serde_yaml::Mapping, key: &str) -> (r: Option<String>)
    ensures
        match r {
            Some(t) => text_at(mapping_entries(*m), key@) == Some(t@),
            None => text_at(mapping_entries(*m), key@) is None,
        },
{
    match mapping_get(m, key) {
        None => None,
        Some(v) => text_of_scalar(&v),
    }
}

/// The text under `key` of a mapping, where the entry holds a text and nothing else.
pub fn string_under(m: &serde_yaml::Mapping, key: &str) -> (r: Option<String>)
    ensures
        match r {
            Some(t) => string_at(mapping_entries(*m), key@) == Some(t@),
            None => string_at(mapping_entries(*m), key@) is None,
        },
{
    match mapping_get(m, key) {
        None => None,
        Some(v) => match shape_of(&v) {
            Shape::Text(t) => Some(t),
            _ => None,
        },
    }
}

/// The text under `key` of a mapping, where the key may be left out; the error is `()`.
pub fn optional_text_under(m: &serde_yaml::Mapping, key: &str) -> (r: Result<Option<String>, ()>)
    ensures
        match r {
            Ok(Some(t)) => optional_text_at(mapping_entries(*m), key@) == Some(Some(t@)),
            Ok(None) => optional_text_at(mapping_entries(*m), key@) == Some(
                None::<Seq<char>>,
            ),
            Err(_) => optional_text_at(mapping_entries(*m), key@) is None,
        },
{
    match mapping_get(m, key) {
        None => Ok(None),
        Some(v) => match shape_of(&v) {
            Shape::Null => Ok(None),
            _ => match text_of_scalar(&v) {
                Some(t) => Ok(Some(t)),
                None => Err(()),
            },
        },
    }
}

/// The mapping under `key` of a mapping.
pub fn mapping_under(m: &serde_yaml::Mapping, key: &str) -> (r: Option<serde_yaml::Mapping>)
    ensures
        match r {
            Some(inner) => mapping_at(mapping_entries(*m), key@) == Some(mapping_entries(inner)),
            None => mapping_at(mapping_entries(*m), key@) is None,
        },
{
    match mapping_get(m, key) {
        None => None,
        Some(v) => match shape_of(&v) {
            Shape::Dict(inner) => Some(inner),
            _ => None,
        },
    }
}

/// The items of the sequence under `key` of a mapping.
pub fn list_under(m: &serde_yaml::Mapping, key: &str) -> (r: Option<Vec<serde_yaml::Value>>)
    ensures
        match r {
            Some(items) => list_at(mapping_entries(*m), key@) == Some(
                crate::yaml::nodes_of(items@),
            ),
            None => list_at(mapping_entries(*m), key@) is None,
        },
{
    match mapping_get(m, key) {
        None => None,
        Some(v) => match shape_of(&v) {
            Shape::List(items) => Some(items),
            _ => None,
        },
    }
}

/// The mapping under `key` of `m`, where the key may be left out: empty where the key is
/// missing or null.
pub fn child_mapping(m: &serde_yaml::Mapping, key: &str) -> (r: Option<serde_yaml::Mapping>)
    ensures
        match r {
            Some(inner) => sub_mapping(mapping_entries(*m), key@) == Some(mapping_entries(inner)),
            None => sub_mapping(mapping_entries(*m), key@) is None,
        },
{
    match mapping_get(m, key) {
        None => Some(mapping_new()),
        Some(v) => match shape_of(&v) {
            Shape::Null => Some(mapping_new()),
            Shape::Dict(inner) => Some(inner),
            _ => None,
        },
    }
}

/// A mapping with the given fields, in their order.
pub(crate) fn mapping_of(fields: Vec<(String, serde_yaml::Value)>) -> (m: serde_yaml::Mapping)
    requires
        distinct_names(fields@),
    ensures
        mapping_entries(m) == keyed_entries(fields@),
{
    let mut m = mapping_new();
    let mut i: usize = 0;
    assert(keyed_entries(fields@).subrange(0, 0) =~= Seq::empty());
    while i < fields.len()
        invariant
            i <= fields.len(),
            distinct_names(fields@),
            mapping_entries(m) == keyed_entries(fields@).subrange(0, i as int),
        decreases fields.len() - i,
    {
        let ghost had = mapping_entries(m);
        let ghost key = Node::Text(fields@[i as int].0@);
        let k = text_value(fields[i].0.as_str());
        let v = fields[i].1.clone();
        proof {
            if has_key(had, key) {
                let j = choose|j: int| 0 <= j < had.len() && (#[trigger] had[j]).0 == key;
                assert(had[j] == keyed_entries(fields@)[j]);
                assert(fields@[j].0@ == fields@[i as int].0@);
            }
            lemma_put_new(had, key, value_node(v));
        }
        mapping_insert(&mut m, k, v);
        proof {
            assert(had.push((key, value_node(v))) =~= keyed_entries(fields@).subrange(0, i + 1));
        }
        i = i + 1;
    }
    assert(keyed_entries(fields@).subrange(0, fields.len() as int) =~= keyed_entries(fields@));
    m
}

/// A mapping from texts to texts, in the order of the pairs.
pub(crate) fn mapping_of_texts(pairs: &Vec<(String, String)>) -> (m: serde_yaml::Mapping)
    requires
        distinct_keys(crate::index_map::pair_views(pairs@)),
    ensures
        mapping_entries(m) == text_entries(crate::index_map::pair_views(pairs@)),
{
    let ghost views = crate::index_map::pair_views(pairs@);
    let mut m = mapping_new();
    let mut i: usize = 0;
    assert(text_entries(views).subrange(0, 0) =~= Seq::empty());
    while i < pairs.len()
        invariant
            i <= pairs.len(),
            views == crate::index_map::pair_views(pairs@),
            distinct_keys(views),
            mapping_entries(m) == text_entries(views).subrange(0, i as int),
        decreases pairs.len() - i,
    {
        let ghost had = mapping_entries(m);
        let ghost key = Node::Text(pairs@[i as int].0@);
        let k = text_value(pairs[i].0.as_str());
        let v = text_value(pairs[i].1.as_str());
        proof {
            if has_key(had, key) {
                let j = choose|j: int| 0 <= j < had.len() && (#[trigger] had[j]).0 == key;
                assert(had[j] == text_entries(views)[j]);
                assert(views[j].0 == views[i as int].0);
            }
            lemma_put_new(had, key, value_node(v));
        }
        mapping_insert(&mut m, k, v);
        proof {
            assert(had.push((key, value_node(v))) =~= text_entries(views).subrange(0, i + 1));
        }
        i = i + 1;
    }
    assert(text_entries(views).subrange(0, pairs.len() as int) =~= text_entries(views));
    m
}

/// The texts that a mapping holds, by key, as an ordered map; `None` where a key or a value
/// is no scalar.
pub fn texts_of_mapping(m: &serde_yaml::Mapping) -> (r: Option<indexmap::IndexMap<String, String>>)
    ensures
        match r {
            Some(texts) => read_texts(mapping_entries(*m)) == Some(index_map_entries(texts)),
            None => read_texts(mapping_entries(*m)) is None,
        },
{
    let entries = mapping_pairs(m);
    let ghost all = mapping_entries(*m);
    let mut out = index_map_new();
    let mut i: usize = 0;
    while i < entries.len()
        invariant
            i <= entries.len(),
            all == entries_of(entries@),
            all == mapping_entries(*m),
            read_texts(all.subrange(0, i as int)) == Some(index_map_entries(out)),
        decreases entries.len() - i,
    {
        proof {
            assert(all.subrange(0, i + 1).drop_last() =~= all.subrange(0, i as int));
            assert(all.subrange(0, i + 1).last() == all[i as int]);
            assert(all[i as int] == (
                value_node(entries@[i as int].0),
                value_node(entries@[i as int].1),
            ));
        }
        let key = match text_of_scalar(&entries[i].0) {
            Some(t) => t,
            None => {
                proof {
                    lemma_read_texts_none_stays(all, i as int);
                }
                return None;
            },
        };
        let value = match text_of_scalar(&entries[i].1) {
            Some(t) => t,
            None => {
                proof {
                    lemma_read_texts_none_stays(all, i as int);
                }
                return None;
            },
        };
        index_map_insert(&mut out, key, value);
        i = i + 1;
    }
    proof {
        assert(all.subrange(0, entries.len() as int) =~= all);
    }
    Some(out)
}

/// An entry among the first that holds no text leaves the whole without pairs of texts.
pub(crate) proof fn lemma_read_texts_none_stays(entries: Seq<(Node, Node)>, i: int)
    requires
        0 <= i < entries.len(),
        read_texts(entries.subrange(0, i + 1)) is None,
    ensures
        read_texts(entries) is None,
    decreases entries.len() - i,
{
    if i + 1 == entries.len() {
        assert(entries.subrange(0, i + 1) =~= entries);
    } else {
        assert(entries.subrange(0, i + 2).drop_last() =~= entries.subrange(0, i + 1));
        lemma_read_texts_none_stays(entries, i + 1);
    }
}

/// Reading the entries made of pairs of texts gives the pairs back, where no two pairs
/// have the same key.
pub(crate) proof fn lemma_read_text_entries(pairs: Seq<(Seq<char>, Seq<char>)>)
    requires
        distinct_keys(pairs),
    ensures
        read_texts(text_entries(pairs)) == Some(pairs),
    decreases pairs.len(),
{
    if pairs.len() == 0 {
        assert(pairs =~= Seq::empty());
    } else {
        let before = pairs.drop_last();
        assert(distinct_keys(before)) by {
            assert forall|i: int, j: int| 0 <= i < j < before.len() implies (#[trigger] before[i]).0
                != (#[trigger] before[j]).0 by {
                assert(before[i] == pairs[i]);
                assert(before[j] == pairs[j]);
            }
        }
        lemma_read_text_entries(before);
        assert(text_entries(pairs).drop_last() =~= text_entries(before));
        if has_key(before, pairs.last().0) {
            let i = choose|i: int| 0 <= i < before.len() && (#[trigger] before[i]).0
                == pairs.last().0;
            assert(before[i] == pairs[i]);
            assert(pairs[i].0 != pairs[pairs.len() - 1].0);
        }
        lemma_put_new(before, pairs.last().0, pairs.last().1);
        assert(before.push(pairs.last()) =~= pairs);
    }
}

} // verus!

//! The input of a run: free-form data that the host hands to a package unread.

use crate::api::envelope::{
    envelope, envelope_value, is_framed, read_document, EnvelopeError, EnvelopeFault,
};
use crate::document::{child_mapping, sub_mapping, text_under};
use crate::ordered::{has_key, lemma_lookup_put_same, lookup, put};
use crate::yaml::{
    dict_value, emitted_text, entries_of, error_text, from_text, mapping_entries, mapping_insert,
    mapping_new, mapping_pairs, parsed_node, shape_of, text_value, to_text, value_node, Node,
    Shape,
};
use vstd::prelude::*;
use vstd::string::*;

verus! {

/// The input of a run.
#[derive(Clone, PartialEq, Debug)]
pub struct MistInput {
    /// Free-form data; the host never reads its keys.
    pub data: serde_yaml::Mapping,
}

/// The input of a run, as the earlier document kind names it.
#[derive(Clone, PartialEq, Debug)]
pub struct MistHuskInput {
    pub data: serde_yaml::Mapping,
}

impl View for MistInput {
    type V = Seq<(Node, Node)>;

    open spec fn view(&self) -> Seq<(Node, Node)> {
        mapping_entries(self.data)
    }
}

impl View for MistHuskInput {
    type V = Seq<(Node, Node)>;

    open spec fn view(&self) -> Seq<(Node, Node)> {
        mapping_entries(self.data)
    }
}

/// The document for an input, of the given kind.
pub open spec fn input_document(kind: Seq<char>, data: Seq<(Node, Node)>) -> Node {
    envelope(kind, "data"@, Node::Dict(data))
}

/// The data that a document holds, `None` where the document has another shape. The data
/// must be a mapping; an empty `data` is the empty mapping.
pub open spec fn read_input(doc: Node) -> Option<Seq<(Node, Node)>> {
    match doc {
        Node::Dict(top) => if !is_framed(top) || lookup(top, Node::Text("data"@)) is None {
            None
        } else {
            sub_mapping(top, "data"@)
        },
        _ => None,
    }
}

/// The data that a text holds.
pub open spec fn deserialized_input(text: Seq<char>) -> Result<Seq<(Node, Node)>, EnvelopeFault> {
    match parsed_node(text) {
        None => Err(EnvelopeFault::Parse),
        Some(doc) => match read_input(doc) {
            None => Err(EnvelopeFault::Malformed),
            Some(data) => Ok(data),
        },
    }
}

/// Writes data as the input document of the given kind.
pub fn serialize_input_as(kind: &str, data: &serde_yaml::Mapping) -> (r: Result<
    String,
    EnvelopeError,
>)
    ensures
        match r {
            Ok(s) => emitted_text(input_document(kind@, mapping_entries(*data))) == Some(s@),
            Err(e) => emitted_text(input_document(kind@, mapping_entries(*data))) is None
                && e is Emit,
        },
{
    proof {
        reveal_strlit("data");
        reveal_strlit("apiVersion");
        reveal_strlit("kind");
        assert("data"@[0] != "kind"@[0]);
    }
    let v = envelope_value(kind, "data", dict_value(data.clone()));
    match to_text(&v) {
        Ok(s) => Ok(s),
        Err(e) => Err(EnvelopeError::Emit(error_text(&e))),
    }
}

/// Reads the data of an input document.
pub fn deserialize_input(text: &str) -> (r: Result<serde_yaml::Mapping, EnvelopeError>)
    ensures
        match r {
            Ok(data) => deserialized_input(text@) == Ok::<_, EnvelopeFault>(
                mapping_entries(data),
            ),
            Err(e) => deserialized_input(text@) == Err::<Seq<(Node, Node)>, _>(e.fault()),
        },
{
    let doc = match read_document(text) {
        Err(e) => { return Err(e); },
        Ok(doc) => doc,
    };
    let top = match shape_of(&doc) {
        Shape::Dict(top) => top,
        _ => {
            return Err(
                EnvelopeError::Malformed(String::from_str("expected a mapping at the root")),
            );
        },
    };
    if text_under(&top, "apiVersion").is_none() {
        return Err(EnvelopeError::Malformed(String::from_str("missing field `apiVersion`")));
    }
    if text_under(&top, "kind").is_none() {
        return Err(EnvelopeError::Malformed(String::from_str("missing field `kind`")));
    }
    if crate::yaml::mapping_get(&top, "data").is_none() {
        return Err(EnvelopeError::Malformed(String::from_str("missing field `data`")));
    }
    match child_mapping(&top, "data") {
        Some(data) => Ok(data),
        None => Err(EnvelopeError::Malformed(String::from_str("`data` must be a mapping"))),
    }
}

impl MistInput {
    /// Writes the input as a `MistInput` document.
    pub fn serialize(&self) -> (r: Result<String, EnvelopeError>)
        ensures
            match r {
                Ok(s) => emitted_text(input_document("MistInput"@, self@)) == Some(s@),
                Err(e) => emitted_text(input_document("MistInput"@, self@)) is None && e is Emit,
            },
    {
        serialize_input_as("MistInput", &self.data)
    }

    /// Reads an input from its YAML document.
    pub fn deserialize(text: &str) -> (r: Result<Self, EnvelopeError>)
        ensures
            match r {
                Ok(input) => deserialized_input(text@) == Ok::<_, EnvelopeFault>(input@),
                Err(e) => deserialized_input(text@) == Err::<Seq<(Node, Node)>, _>(e.fault()),
            },
    {
        match deserialize_input(text) {
            Ok(data) => Ok(MistInput { data }),
            Err(e) => Err(e),
        }
    }
}

impl MistHuskInput {
    /// Writes the input as a `MistHuskInput` document.
    pub fn serialize(&self) -> (r: Result<String, EnvelopeError>)
        ensures
            match r {
                Ok(s) => emitted_text(input_document("MistHuskInput"@, self@)) == Some(s@),
                Err(e) => emitted_text(input_document("MistHuskInput"@, self@)) is None
                    && e is Emit,
            },
    {
        serialize_input_as("MistHuskInput", &self.data)
    }

    /// Reads an input from its YAML document.
    pub fn deserialize(text: &str) -> (r: Result<Self, EnvelopeError>)
        ensures
            match r {
                Ok(input) => deserialized_input(text@) == Ok::<_, EnvelopeFault>(input@),
                Err(e) => deserialized_input(text@) == Err::<Seq<(Node, Node)>, _>(e.fault()),
            },
    {
        match deserialize_input(text) {
            Ok(data) => Ok(MistHuskInput { data }),
            Err(e) => Err(e),
        }
    }
}

/// Why the input of a run could not be put together.
#[derive(Debug)]
pub enum InputError {
    /// The input file is no YAML; the message is the parser's.
    File(String),
    /// The input file holds something other than a mapping.
    FileNotMapping,
    /// The values set on the command line are no YAML; the message is the parser's.
    Values(String),
    /// The values set on the command line are no mapping.
    ValuesNotMapping,
}

/// The kinds of [`InputError`], without their messages.
pub enum InputFault {
    File,
    FileNotMapping,
    Values,
    ValuesNotMapping,
}

impl InputError {
    pub open spec fn fault(self) -> InputFault {
        match self {
            InputError::File(_) => InputFault::File,
            InputError::FileNotMapping => InputFault::FileNotMapping,
            InputError::Values(_) => InputFault::Values,
            InputError::ValuesNotMapping => InputFault::ValuesNotMapping,
        }
    }

    /// The text shown to the user.
    pub fn message(&self) -> (r: String)
        ensures
            match *self {
                InputError::File(m) => r@ == m@,
                InputError::FileNotMapping => r@ == "the input file must hold a YAML mapping"@,
                InputError::Values(m) => r@ == m@,
                InputError::ValuesNotMapping => r@
                    == "the values set must be given in the form `key: value, key: value`"@,
            },
    {
        match self {
            InputError::File(m) => m.clone(),
            InputError::FileNotMapping => String::from_str(
                "the input file must hold a YAML mapping",
            ),
            InputError::Values(m) => m.clone(),
            InputError::ValuesNotMapping => String::from_str(
                "the values set must be given in the form `key: value, key: value`",
            ),
        }
    }
}

/// The mapping that a text holds: an empty document is the empty mapping. `Err(true)` where
/// the text is no YAML, `Err(false)` where it holds something other than a mapping.
pub open spec fn parsed_mapping(text: Seq<char>) -> Result<Seq<(Node, Node)>, bool> {
    match parsed_node(text) {
        None => Err(true),
        Some(Node::Dict(entries)) => Ok(entries),
        Some(Node::Null) => Ok(Seq::empty()),
        Some(_) => Err(false),
    }
}

/// The values set on the command line, as the text of a YAML mapping: the pairs, in braces.
pub open spec fn braced(sets: Seq<char>) -> Seq<char> {
    "{"@ + sets + "}"@
}

/// Every key is a text.
pub open spec fn all_text_keys(entries: Seq<(Node, Node)>) -> bool {
    forall|i: int| 0 <= i < entries.len() ==> (#[trigger] entries[i]).0 is Text
}

/// The entries after each of `more` was put, in order.
pub open spec fn put_all(entries: Seq<(Node, Node)>, more: Seq<(Node, Node)>) -> Seq<(Node, Node)>
    decreases more.len(),
{
    if more.len() == 0 {
        entries
    } else {
        put(put_all(entries, more.drop_last()), more.last().0, more.last().1)
    }
}

/// The data of a run: the entries of the input file, then the values set on the command
/// line, which replace the value of a key that the file has, then the name of the
/// installation under `name`, which replaces any other.
pub open spec fn merged_input(
    file: Seq<(Node, Node)>,
    sets: Seq<(Node, Node)>,
    name: Seq<char>,
) -> Seq<(Node, Node)> {
    put(put_all(file, sets), Node::Text("name"@), Node::Text(name))
}

/// The entries of the input file and of the values set, or the fault of the first that
/// cannot be read.
pub open spec fn input_sources(file: Option<Seq<char>>, sets: Option<Seq<char>>) -> Result<
    (Seq<(Node, Node)>, Seq<(Node, Node)>),
    InputFault,
> {
    let file_entries = match file {
        None => Ok(Seq::empty()),
        Some(text) => parsed_mapping(text),
    };
    let set_entries = match sets {
        None => Ok(Seq::empty()),
        Some(text) => parsed_mapping(braced(text)),
    };
    match file_entries {
        Err(unreadable) => Err(
            if unreadable {
                InputFault::File
            } else {
                InputFault::FileNotMapping
            },
        ),
        Ok(f) => match set_entries {
            Err(unreadable) => Err(
                if unreadable {
                    InputFault::Values
                } else {
                    InputFault::ValuesNotMapping
                },
            ),
            Ok(s) => Ok((f, s)),
        },
    }
}

/// The mapping that a text holds; the error is the parser's message, or `None` where the
/// text holds something other than a mapping.
fn mapping_of_text(text: &str) -> (r: Result<serde_yaml::Mapping, Option<String>>)
    ensures
        match r {
            Ok(m) => parsed_mapping(text@) == Ok::<_, bool>(mapping_entries(m)),
            Err(Some(_)) => parsed_mapping(text@) == Err::<Seq<(Node, Node)>, _>(true),
            Err(None) => parsed_mapping(text@) == Err::<Seq<(Node, Node)>, _>(false),
        },
{
    match from_text(text) {
        Err(e) => Err(Some(error_text(&e))),
        Ok(v) => match shape_of(&v) {
            Shape::Dict(m) => Ok(m),
            Shape::Null => Ok(mapping_new()),
            _ => Err(None),
        },
    }
}

/// What giving `key` the value `value` makes of entries. A key that is a text, or that an
/// entry holds, keeps its place where the entries have it and goes to the end where not. Of
/// any other key the mapping decides by its own comparison of keys whether it has it: the
/// value goes to the end, or takes the place of the value of one entry.
pub open spec fn is_inserted(
    before: Seq<(Node, Node)>,
    key: Node,
    value: Node,
    after: Seq<(Node, Node)>,
) -> bool {
    if key is Text || has_key(before, key) {
        after == put(before, key, value)
    } else {
        after == before.push((key, value)) || exists|i: int|
            0 <= i < before.len() && after == before.update(i, (#[trigger] before[i].0, value))
    }
}

/// Whether `out` is what the entries of the input file become when each of the values set
/// on the command line is inserted, one after the other.
pub open spec fn is_merged(
    file: Seq<(Node, Node)>,
    sets: Seq<(Node, Node)>,
    out: Seq<(Node, Node)>,
) -> bool
    decreases sets.len(),
{
    if sets.len() == 0 {
        out == file
    } else {
        exists|mid: Seq<(Node, Node)>|
            is_merged(file, sets.drop_last(), mid) && #[trigger] is_inserted(
                mid,
                sets.last().0,
                sets.last().1,
                out,
            )
    }
}

/// Puts the input of a run together from the text of the input file, the values set on the
/// command line and the name of the installation: the values are inserted into the entries
/// of the file, one after the other, and the name, under `name`, last.
///
/// Where the keys set on the command line are texts, that is the data `merged_input`
/// exactly.
pub fn assemble_input(file: Option<&str>, sets: Option<&str>, name: &str) -> (r: Result<
    MistInput,
    InputError,
>)
    ensures
        match r {
            Ok(input) => input_sources(text_opt(file), text_opt(sets)) matches Ok(sources) && (
            all_text_keys(sources.1) ==> input@ == merged_input(sources.0, sources.1, name@))
                && lookup(input@, Node::Text("name"@)) == Some(Node::Text(name@)) && is_merged(
                sources.0,
                sources.1.push((Node::Text("name"@), Node::Text(name@))),
                input@,
            ),
            Err(e) => input_sources(text_opt(file), text_opt(sets)) == Err::<
                (Seq<(Node, Node)>, Seq<(Node, Node)>),
                _,
            >(e.fault()),
        },
{
    let from_file = match file {
        None => mapping_new(),
        Some(text) => match mapping_of_text(text) {
            Ok(m) => m,
            Err(Some(message)) => { return Err(InputError::File(message)); },
            Err(None) => { return Err(InputError::FileNotMapping); },
        },
    };
    let from_sets = match sets {
        None => mapping_new(),
        Some(text) => {
            let mut wrapped = String::from_str("{");
            wrapped.append(text);
            wrapped.append("}");
            match mapping_of_text(wrapped.as_str()) {
                Ok(m) => m,
                Err(Some(message)) => { return Err(InputError::Values(message)); },
                Err(None) => { return Err(InputError::ValuesNotMapping); },
            }
        },
    };
    let ghost file_entries = mapping_entries(from_file);
    let ghost set_entries = mapping_entries(from_sets);
    let pairs = mapping_pairs(&from_sets);
    let mut data = from_file;
    let mut i: usize = 0;
    assert(set_entries.subrange(0, 0).len() == 0);
    while i < pairs.len()
        invariant
            i <= pairs.len(),
            entries_of(pairs@) == set_entries,
            is_merged(file_entries, set_entries.subrange(0, i as int), mapping_entries(data)),
            all_text_keys(set_entries) ==> mapping_entries(data) == put_all(
                file_entries,
                set_entries.subrange(0, i as int),
            ),
        decreases pairs.len() - i,
    {
        proof {
            let before = set_entries.subrange(0, i as int);
            let after = set_entries.subrange(0, i + 1);
            assert(after.drop_last() =~= before);
            assert(after.last() == set_entries[i as int]);
            assert(set_entries[i as int] == (
                value_node(pairs@[i as int].0),
                value_node(pairs@[i as int].1),
            ));
        }
        let ghost mid = mapping_entries(data);
        mapping_insert(&mut data, pairs[i].0.clone(), pairs[i].1.clone());
        proof {
            let after = set_entries.subrange(0, i + 1);
            assert(after.drop_last() =~= set_entries.subrange(0, i as int));
            assert(after.len() > 0);
            assert(is_merged(file_entries, after.drop_last(), mid));
            assert(is_inserted(mid, after.last().0, after.last().1, mapping_entries(data)));
            assert(is_merged(file_entries, after, mapping_entries(data)));
        }
        i = i + 1;
    }
    let ghost merged = mapping_entries(data);
    proof {
        assert(set_entries.subrange(0, pairs.len() as int) =~= set_entries);
        lemma_lookup_put_same(mapping_entries(data), Node::Text("name"@), Node::Text(name@));
    }
    mapping_insert(&mut data, text_value("name"), text_value(name));
    let input = MistInput { data };
    proof {
        assert(input_sources(text_opt(file), text_opt(sets)) == Ok::<_, InputFault>(
            (file_entries, set_entries),
        ));
        assert(is_merged(file_entries, set_entries, merged));
        assert(input@ == put(merged, Node::Text("name"@), Node::Text(name@)));
        let all = set_entries.push((Node::Text("name"@), Node::Text(name@)));
        assert(all.drop_last() =~= set_entries);
        assert(is_inserted(merged, all.last().0, all.last().1, input@));
        assert(is_merged(file_entries, all, input@));
        assert(lookup(input@, Node::Text("name"@)) == Some(Node::Text(name@)));
        assert(all_text_keys(set_entries) ==> input@ == merged_input(
            file_entries,
            set_entries,
            name@,
        ));
    }
    Ok(input)
}

pub open spec fn text_opt(text: Option<&str>) -> Option<Seq<char>> {
    match text {
        None => None,
        Some(t) => Some(t@),
    }
}

/// Writing an input document and reading it gives the data back. Together with a YAML
/// writer and reader that hand a document back as it was written, an input survives being
/// written and read.
pub proof fn lemma_input_document_round_trip(kind: Seq<char>, data: Seq<(Node, Node)>)
    ensures
        read_input(input_document(kind, data)) == Some(data),
{
    crate::api::mistresult::lemma_frame_keys_differ();
    let top = seq![
        (Node::Text("apiVersion"@), Node::Text(crate::api::envelope::api_version())),
        (Node::Text("kind"@), Node::Text(kind)),
        (Node::Text("data"@), Node::Dict(data)),
    ];
    assert(input_document(kind, data) == Node::Dict(top));
    assert(crate::ordered::distinct_keys(top));
    crate::ordered::lemma_lookup_at(top, 0);
    crate::ordered::lemma_lookup_at(top, 1);
    crate::ordered::lemma_lookup_at(top, 2);
}

} // verus!

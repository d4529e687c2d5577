//! The result of a run: the files that a package rendered, or the message of its failure.

use crate::api::envelope::{
    envelope, envelope_value, is_framed, read_document, EnvelopeError, EnvelopeFault,
};
use crate::document::{
    keyed_entries, lemma_read_text_entries, mapping_at, mapping_of, mapping_of_texts,
    mapping_under, optional_text_at, optional_text_under, read_texts, text_at, text_entries,
    text_under, texts_of_mapping,
};
use crate::index_map::{
    index_map_entries, index_map_insert, index_map_new, index_map_pairs, pair_views,
};
use crate::ordered::{distinct_keys, has_key, lemma_put_new, lookup, put};
use crate::text::str_eq;
use crate::yaml::{
    dict_value, emitted_text, error_text, mapping_entries, parsed_node, shape_of, text_value,
    to_text, value_node, Node, Shape,
};
use indexmap::IndexMap;
use vstd::prelude::*;
use vstd::string::*;

verus! {

/// What a package hands back when it succeeds.
#[derive(PartialEq, Debug)]
pub struct MistOutput {
    message: Option<String>,
    files: IndexMap<String, String>,
}

/// The failure of a package: the message that it gave.
#[derive(Clone, PartialEq, Eq, Debug)]
pub struct MistError {
    pub message: String,
}

/// What a package hands back.
pub type MistResult = Result<MistOutput, MistError>;

pub struct OutputView {
    pub message: Option<Seq<char>>,
    /// Paths and contents, in the order in which the files were added.
    pub files: Seq<(Seq<char>, Seq<char>)>,
}

impl View for MistOutput {
    type V = OutputView;

    closed spec fn view(&self) -> OutputView {
        OutputView {
            message: match self.message {
                None => None,
                Some(m) => Some(m@),
            },
            files: index_map_entries(self.files),
        }
    }
}

pub open spec fn result_view(r: MistResult) -> Result<OutputView, Seq<char>> {
    match r {
        Ok(out) => Ok(out@),
        Err(e) => Err(e.message@),
    }
}

/// The body of the document for a result. A success writes `result: Ok`, its message where
/// it has one, and its files where it has any; a failure writes `result: Err` and its
/// message.
pub open spec fn result_data(r: Result<OutputView, Seq<char>>) -> Seq<(Node, Node)> {
    match r {
        Ok(out) => seq![(Node::Text("result"@), Node::Text("Ok"@))] + (match out.message {
            Some(m) => seq![(Node::Text("message"@), Node::Text(m))],
            None => Seq::empty(),
        }) + (if out.files.len() > 0 {
            seq![(Node::Text("files"@), Node::Dict(text_entries(out.files)))]
        } else {
            Seq::empty()
        }),
        Err(m) => seq![
            (Node::Text("result"@), Node::Text("Err"@)),
            (Node::Text("message"@), Node::Text(m)),
        ],
    }
}

/// The document for a result, of the given kind.
pub open spec fn result_document(kind: Seq<char>, r: Result<OutputView, Seq<char>>) -> Node {
    envelope(kind, "data"@, Node::Dict(result_data(r)))
}

/// The files under `key`: none where the key is missing, and `None` where the key holds
/// anything but a mapping from texts to texts.
pub open spec fn files_at(entries: Seq<(Node, Node)>, key: Seq<char>) -> Option<
    Seq<(Seq<char>, Seq<char>)>,
> {
    match lookup(entries, Node::Text(key)) {
        None => Some(Seq::empty()),
        Some(Node::Dict(inner)) => read_texts(inner),
        Some(_) => None,
    }
}

/// The result that a tag, a message and files stand for. A tag other than `Ok` and `Err`
/// stands for a failure whose message names the tag.
pub open spec fn tagged_result(
    tag: Seq<char>,
    message: Option<Seq<char>>,
    files: Seq<(Seq<char>, Seq<char>)>,
) -> Result<OutputView, Seq<char>> {
    if tag == "Ok"@ {
        Ok(OutputView { message, files })
    } else if tag == "Err"@ {
        Err(
            match message {
                Some(m) => m,
                None => "module failed without a message"@,
            },
        )
    } else {
        Err(
            "module result format error: `data.result` must either be \"Ok\" or \"Err\", found "@
                + tag,
        )
    }
}

/// The result that a document holds, `None` where the document has another shape.
pub open spec fn read_result(doc: Node) -> Option<Result<OutputView, Seq<char>>> {
    match doc {
        Node::Dict(top) => if !is_framed(top) {
            None
        } else {
            match mapping_at(top, "data"@) {
                None => None,
                Some(data) => match (
                    text_at(data, "result"@),
                    optional_text_at(data, "message"@),
                    files_at(data, "files"@),
                ) {
                    (Some(tag), Some(message), Some(files)) => Some(
                        tagged_result(tag, message, files),
                    ),
                    _ => None,
                },
            }
        },
        _ => None,
    }
}

/// The result that a text holds.
pub open spec fn deserialized_result(text: Seq<char>) -> Result<
    Result<OutputView, Seq<char>>,
    EnvelopeFault,
> {
    match parsed_node(text) {
        None => Err(EnvelopeFault::Parse),
        Some(doc) => match read_result(doc) {
            None => Err(EnvelopeFault::Malformed),
            Some(r) => Ok(r),
        },
    }
}

impl Clone for MistOutput {
    fn clone(&self) -> (r: Self)
        ensures
            r@ == self@,
    {
        let message = match &self.message {
            Some(m) => Some(m.clone()),
            None => None,
        };
        let pairs = index_map_pairs(&self.files);
        MistOutput { message, files: index_map_of(&pairs) }
    }
}

impl MistError {
    pub fn new(message: String) -> (r: Self)
        ensures
            r.message == message,
    {
        MistError { message }
    }

    /// The message of the failure.
    pub fn message(&self) -> (r: String)
        ensures
            r@ == self.message@,
    {
        self.message.clone()
    }
}

impl MistOutput {
    /// An output without message and without files.
    pub fn new() -> (r: Self)
        ensures
            r@.message is None,
            r@.files == Seq::<(Seq<char>, Seq<char>)>::empty(),
    {
        MistOutput { message: None, files: index_map_new() }
    }

    /// Sets the message for the user.
    pub fn set_message(&mut self, message: String)
        ensures
            final(self)@ == (OutputView { message: Some(message@), files: old(self)@.files }),
    {
        self.message = Some(message);
    }

    /// Sets the message for the user; for chaining.
    pub fn with_message(self, message: String) -> (r: Self)
        ensures
            r@ == (OutputView { message: Some(message@), files: self@.files }),
    {
        let mut out = self;
        out.set_message(message);
        out
    }

    /// Adds a file. A path that the output holds keeps its place and gets the new content.
    pub fn add_file(&mut self, filename: String, content: String)
        ensures
            final(self)@ == (OutputView {
                message: old(self)@.message,
                files: put(old(self)@.files, filename@, content@),
            }),
    {
        index_map_insert(&mut self.files, filename, content);
    }

    /// Adds a file; for chaining.
    pub fn with_file(self, filename: String, content: String) -> (r: Self)
        ensures
            r@ == (OutputView {
                message: self@.message,
                files: put(self@.files, filename@, content@),
            }),
    {
        let mut out = self;
        out.add_file(filename, content);
        out
    }

    /// The message for the user.
    pub fn get_message(&self) -> (r: &Option<String>)
        ensures
            match *r {
                Some(m) => self@.message == Some(m@),
                None => self@.message is None,
            },
    {
        &self.message
    }

    /// The files, by path, in the order in which they were added.
    pub fn get_files(&self) -> (r: &IndexMap<String, String>)
        ensures
            index_map_entries(*r) == self@.files,
    {
        &self.files
    }

    /// Paths and contents of the files, in the order in which they were added.
    pub fn file_list(&self) -> (r: Vec<(String, String)>)
        ensures
            pair_views(r@) == self@.files,
            distinct_keys(self@.files),
    {
        index_map_pairs(&self.files)
    }
}

/// The value for a result, as a document of the given kind.
pub fn result_value(kind: &str, result: &MistResult) -> (v: serde_yaml::Value)
    ensures
        value_node(v) == result_document(kind@, result_view(*result)),
{
    let mut fields: Vec<(String, serde_yaml::Value)> = Vec::new();
    proof {
        reveal_strlit("result");
        reveal_strlit("message");
        reveal_strlit("files");
        reveal_strlit("data");
        reveal_strlit("apiVersion");
        reveal_strlit("kind");
        assert("data"@[0] != "kind"@[0]);
    }
    match result {
        Ok(out) => {
            fields.push((String::from_str("result"), text_value("Ok")));
            match &out.message {
                Some(m) => {
                    fields.push((String::from_str("message"), text_value(m.as_str())));
                },
                None => {},
            }
            let files = index_map_pairs(&out.files);
            if files.len() > 0 {
                let listed = mapping_of_texts(&files);
                fields.push((String::from_str("files"), dict_value(listed)));
            }
            assert(keyed_entries(fields@) =~= result_data(result_view(*result)));
        },
        Err(e) => {
            fields.push((String::from_str("result"), text_value("Err")));
            fields.push((String::from_str("message"), text_value(e.message.as_str())));
            assert(keyed_entries(fields@) =~= result_data(result_view(*result)));
        },
    }
    proof {
        assert forall|i: int, j: int| 0 <= i < j < fields@.len() implies (#[trigger] fields@[i]).0@
            != (#[trigger] fields@[j]).0@ by {
            assert(fields@[i].0@ == "result"@ || fields@[i].0@ == "message"@ || fields@[i].0@
                == "files"@);
            assert(fields@[j].0@ == "result"@ || fields@[j].0@ == "message"@ || fields@[j].0@
                == "files"@);
            assert(fields@[i].0@.len() != fields@[j].0@.len());
        }
    }
    let data = mapping_of(fields);
    envelope_value(kind, "data", dict_value(data))
}

/// Writes a result as the YAML document of the given kind.
pub fn serialize_result_as(kind: &str, result: &MistResult) -> (r: Result<String, EnvelopeError>)
    ensures
        match r {
            Ok(s) => emitted_text(result_document(kind@, result_view(*result))) == Some(s@),
            Err(e) => emitted_text(result_document(kind@, result_view(*result))) is None
                && e is Emit,
        },
{
    let v = result_value(kind, result);
    match to_text(&v) {
        Ok(s) => Ok(s),
        Err(e) => Err(EnvelopeError::Emit(error_text(&e))),
    }
}

/// Writes a result as a `MistResult` document.
pub fn serialize_result(result: &MistResult) -> (r: Result<String, EnvelopeError>)
    ensures
        match r {
            Ok(s) => emitted_text(result_document("MistResult"@, result_view(*result))) == Some(
                s@,
            ),
            Err(e) => emitted_text(result_document("MistResult"@, result_view(*result))) is None
                && e is Emit,
        },
{
    serialize_result_as("MistResult", result)
}

/// The files under `key` of a mapping; the error is `()`.
fn files_under(m: &serde_yaml::Mapping, key: &str) -> (r: Result<IndexMap<String, String>, ()>)
    ensures
        match r {
            Ok(files) => files_at(mapping_entries(*m), key@) == Some(index_map_entries(files)),
            Err(_) => files_at(mapping_entries(*m), key@) is None,
        },
{
    match crate::yaml::mapping_get(m, key) {
        None => Ok(index_map_new()),
        Some(v) => match shape_of(&v) {
            Shape::Dict(inner) => match texts_of_mapping(&inner) {
                None => Err(()),
                Some(files) => Ok(files),
            },
            _ => Err(()),
        },
    }
}

/// The ordered map that holds the pairs, in their order.
pub(crate) fn index_map_of(pairs: &Vec<(String, String)>) -> (m: IndexMap<String, String>)
    requires
        distinct_keys(pair_views(pairs@)),
    ensures
        index_map_entries(m) == pair_views(pairs@),
{
    let ghost all = pair_views(pairs@);
    let mut m = index_map_new();
    let mut i: usize = 0;
    assert(all.subrange(0, 0) =~= Seq::empty());
    while i < pairs.len()
        invariant
            i <= pairs.len(),
            all == pair_views(pairs@),
            distinct_keys(all),
            index_map_entries(m) == all.subrange(0, i as int),
        decreases pairs.len() - i,
    {
        let ghost had = index_map_entries(m);
        proof {
            let key = pairs@[i as int].0@;
            if has_key(had, key) {
                let j = choose|j: int| 0 <= j < had.len() && (#[trigger] had[j]).0 == key;
                assert(had[j] == all[j]);
                assert(all[j].0 == all[i as int].0);
            }
            lemma_put_new(had, key, pairs@[i as int].1@);
            assert(had.push((key, pairs@[i as int].1@)) =~= all.subrange(0, i + 1));
        }
        index_map_insert(&mut m, pairs[i].0.clone(), pairs[i].1.clone());
        i = i + 1;
    }
    assert(all.subrange(0, pairs.len() as int) =~= all);
    m
}

/// Reads a result from its YAML document.
///
/// The document must name a version and a kind and hold `data` with a `result` tag. The tag
/// `Ok` gives the success with its message and files, the tag `Err` the failure with its
/// message. Any other tag is no failure to read: it gives a failure of the package whose
/// message names the tag.
pub fn deserialize_result(result_str: &str) -> (r: Result<MistResult, EnvelopeError>)
    ensures
        match r {
            Ok(res) => deserialized_result(result_str@) == Ok::<_, EnvelopeFault>(
                result_view(res),
            ),
            Err(e) => deserialized_result(result_str@) == Err::<
                Result<OutputView, Seq<char>>,
                _,
            >(e.fault()),
        },
{
    let doc = match read_document(result_str) {
        Err(e) => { return Err(e); },
        Ok(doc) => doc,
    };
    let top = match shape_of(&doc) {
        Shape::Dict(top) => top,
        _ => {
            return Err(
                EnvelopeError::Malformed(String::from_str("expected a mapping at the root")),
            );
        },
    };
    if text_under(&top, "apiVersion").is_none() {
        return Err(EnvelopeError::Malformed(String::from_str("missing field `apiVersion`")));
    }
    if text_under(&top, "kind").is_none() {
        return Err(EnvelopeError::Malformed(String::from_str("missing field `kind`")));
    }
    let data = match mapping_under(&top, "data") {
        None => {
            return Err(EnvelopeError::Malformed(String::from_str("missing field `data`")));
        },
        Some(data) => data,
    };
    let tag = match text_under(&data, "result") {
        None => {
            return Err(EnvelopeError::Malformed(String::from_str("missing field `result`")));
        },
        Some(tag) => tag,
    };
    let message = match optional_text_under(&data, "message") {
        Err(_) => {
            return Err(
                EnvelopeError::Malformed(String::from_str("`message` must be a string")),
            );
        },
        Ok(message) => message,
    };
    let files = match files_under(&data, "files") {
        Err(_) => {
            return Err(
                EnvelopeError::Malformed(
                    String::from_str("`files` must be a mapping from strings to strings"),
                ),
            );
        },
        Ok(files) => files,
    };
    Ok(result_of_tag(tag, message, files))
}

/// The result that a tag, a message and files stand for.
pub fn result_of_tag(tag: String, message: Option<String>, files: IndexMap<String, String>) -> (r:
    MistResult)
    ensures
        result_view(r) == tagged_result(
            tag@,
            match message {
                Some(m) => Some(m@),
                None => None,
            },
            index_map_entries(files),
        ),
{
    if str_eq(tag.as_str(), "Ok") {
        Ok(MistOutput { message, files })
    } else if str_eq(tag.as_str(), "Err") {
        match message {
            Some(m) => Err(MistError { message: m }),
            None => Err(MistError { message: String::from_str("module failed without a message") }),
        }
    } else {
        let mut text = String::from_str(
            "module result format error: `data.result` must either be \"Ok\" or \"Err\", found ",
        );
        text.append(tag.as_str());
        Err(MistError { message: text })
    }
}

/// The keys of the frame and the key `data` differ from each other.
pub(crate) proof fn lemma_frame_keys_differ()
    ensures
        "apiVersion"@ != "kind"@,
        "apiVersion"@ != "data"@,
        "kind"@ != "data"@,
        "result"@ != "message"@,
        "result"@ != "files"@,
        "message"@ != "files"@,
        "Ok"@ != "Err"@,
{
    reveal_strlit("apiVersion");
    reveal_strlit("kind");
    reveal_strlit("data");
    reveal_strlit("result");
    reveal_strlit("message");
    reveal_strlit("files");
    reveal_strlit("Ok");
    reveal_strlit("Err");
    assert("apiVersion"@.len() != "kind"@.len());
    assert("apiVersion"@.len() != "data"@.len());
    assert("kind"@[0] != "data"@[0]);
    assert("result"@.len() != "message"@.len());
    assert("result"@.len() != "files"@.len());
    assert("message"@.len() != "files"@.len());
    assert("Ok"@.len() != "Err"@.len());
}

/// Reading the document that is written for a result gives the result back, with its files
/// in the order in which they were added; no two files of a result have the same path. Together with a YAML writer and reader that hand
/// a document back as it was written, a result survives being written and read.
pub proof fn lemma_result_document_round_trip(kind: Seq<char>, r: Result<OutputView, Seq<char>>)
    requires
        r matches Ok(out) ==> distinct_keys(out.files),
    ensures
        read_result(result_document(kind, r)) == Some(r),
{
    lemma_frame_keys_differ();
    let data = result_data(r);
    let top = seq![
        (Node::Text("apiVersion"@), Node::Text(crate::api::envelope::api_version())),
        (Node::Text("kind"@), Node::Text(kind)),
        (Node::Text("data"@), Node::Dict(data)),
    ];
    assert(result_document(kind, r) == Node::Dict(top));
    assert(distinct_keys(top));
    crate::ordered::lemma_lookup_at(top, 0);
    crate::ordered::lemma_lookup_at(top, 1);
    crate::ordered::lemma_lookup_at(top, 2);
    assert(is_framed(top));
    assert(mapping_at(top, "data"@) == Some(data));
    match r {
        Ok(out) => {
            assert(data[0] == (Node::Text("result"@), Node::Text("Ok"@)));
            assert forall|i: int, j: int| 0 <= i < j < data.len() implies (#[trigger] data[i]).0
                != (#[trigger] data[j]).0 by {
                assert(data[i].0 == Node::Text("result"@) || data[i].0 == Node::Text("message"@)
                    || data[i].0 == Node::Text("files"@));
            }
            crate::ordered::lemma_lookup_at(data, 0);
            crate::ordered::lemma_lookup_none(data, Node::Text("message"@));
            crate::ordered::lemma_lookup_none(data, Node::Text("files"@));
            match out.message {
                Some(m) => {
                    assert(data[1] == (Node::Text("message"@), Node::Text(m)));
                    crate::ordered::lemma_lookup_at(data, 1);
                },
                None => {
                    assert(!has_key(data, Node::Text("message"@)));
                },
            }
            if out.files.len() > 0 {
                let at = data.len() - 1;
                assert(data[at] == (Node::Text("files"@), Node::Dict(text_entries(out.files))));
                crate::ordered::lemma_lookup_at(data, at);
                lemma_read_text_entries(out.files);
            } else {
                assert(!has_key(data, Node::Text("files"@)));
                assert(out.files =~= Seq::empty());
            }
            assert(files_at(data, "files"@) == Some(out.files));
            assert(optional_text_at(data, "message"@) == Some(out.message));
        },
        Err(m) => {
            assert(distinct_keys(data));
            crate::ordered::lemma_lookup_at(data, 0);
            crate::ordered::lemma_lookup_at(data, 1);
            crate::ordered::lemma_lookup_none(data, Node::Text("files"@));
            assert(!has_key(data, Node::Text("files"@)));
        },
    }
}

/// A result survives being written and read, wherever the YAML reader gives back the
/// document that the YAML writer wrote: if `text` is what the writer writes for the document
/// of `r`, and the reader reads that document from `text`, then reading `text` as a result
/// gives `r`, with its files in the order in which they were added.
pub proof fn lemma_result_survives_yaml(kind: Seq<char>, r: Result<OutputView, Seq<char>>, text: Seq<char>)
    requires
        r matches Ok(out) ==> distinct_keys(out.files),
        emitted_text(result_document(kind, r)) == Some(text),
        parsed_node(text) == Some(result_document(kind, r)),
    ensures
        deserialized_result(text) == Ok::<_, EnvelopeFault>(r),
{
    lemma_result_document_round_trip(kind, r);
}

} // verus!

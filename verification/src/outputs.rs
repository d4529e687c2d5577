//! What a command shows: the result of a run as text or as files, and the resources of an
//! install as a list. Printing and writing are left to the caller.

use crate::api::envelope::{EnvelopeError, EnvelopeFault};
use crate::api::mistresult::{
    result_document, result_view, serialize_result, MistOutput, MistResult, OutputView,
};
use crate::cluster::{head_views, heads_of_resources, HeadView, ResourceHead, TypeMetaView};
use crate::installation::{
    all_labelled, identity_labels, resource_texts, text_resources, InstallResources, ManifestError,
    ManifestFault,
};
use crate::registry::path_join;
use crate::text::{
    chars_of, first_index_of, index_of, join, joined, lemma_first_index_bounds, lowercase,
    lowercased, starts_with, str_eq, text_of_range, trim, trimmed, views,
};
use crate::yaml::emitted_text;
use vstd::prelude::*;
use vstd::string::*;

verus! {

/// How the result of a run is shown.
#[derive(Debug)]
pub enum OutputMode {
    /// The result document as it is.
    Raw,
    /// The contents of the files, as one stream of YAML documents.
    Yaml,
    /// The files, written below a directory.
    Dir(String),
}

pub enum ModeView {
    Raw,
    Yaml,
    Dir(Seq<char>),
}

impl View for OutputMode {
    type V = ModeView;

    open spec fn view(&self) -> ModeView {
        match self {
            OutputMode::Raw => ModeView::Raw,
            OutputMode::Yaml => ModeView::Yaml,
            OutputMode::Dir(p) => ModeView::Dir(p@),
        }
    }
}

/// How the resources of an install are shown.
#[derive(Debug, Clone, Copy, PartialEq, Eq, Structural)]
pub enum InspectMode {
    Yaml,
    List,
}

/// Why nothing can be shown.
#[derive(Debug)]
pub enum OutputError {
    /// The package failed; the text is its message.
    Package(String),
    /// Processing was asked for together with raw output.
    ProcessWithRaw,
    /// The result document could not be written.
    Envelope(EnvelopeError),
    /// The manifests could not be read, labelled or written.
    Manifest(ManifestError),
    /// A resource has no type fields.
    NoTypeInformation,
    /// No resource belongs to the install of this name.
    NoResources(String),
    /// The output type is none that the command knows.
    UnexpectedOutputType(String),
}

/// The kinds of [`OutputError`], with the texts that the contracts speak of.
pub enum OutputFault {
    Package(Seq<char>),
    ProcessWithRaw,
    Envelope(EnvelopeFault),
    Manifest(ManifestFault),
    NoTypeInformation,
    NoResources(Seq<char>),
    UnexpectedOutputType(Seq<char>),
}

impl OutputError {
    pub open spec fn fault(self) -> OutputFault {
        match self {
            OutputError::Package(m) => OutputFault::Package(m@),
            OutputError::ProcessWithRaw => OutputFault::ProcessWithRaw,
            OutputError::Envelope(e) => OutputFault::Envelope(e.fault()),
            OutputError::Manifest(e) => OutputFault::Manifest(e.fault()),
            OutputError::NoTypeInformation => OutputFault::NoTypeInformation,
            OutputError::NoResources(n) => OutputFault::NoResources(n@),
            OutputError::UnexpectedOutputType(o) => OutputFault::UnexpectedOutputType(o@),
        }
    }

    /// The text shown to the user.
    pub fn message(&self) -> (r: String)
        ensures
            self is Package ==> r@ == self->Package_0@,
            self is ProcessWithRaw ==> r@
                == "cannot specify -r/--process flag with -o/--output raw"@,
            self is NoTypeInformation ==> r@ == "resource has no type information"@,
            self is NoResources ==> r@ == "no resources found for installation name \""@
                + self->NoResources_0@ + "\""@,
            self is UnexpectedOutputType ==> r@ == "Unexpected output type: "@
                + self->UnexpectedOutputType_0@,
            self is Manifest ==> r@ == self->Manifest_0.message_text(),
            self is Envelope ==> r@ == self->Envelope_0.message_text(),
    {
        match self {
            OutputError::Package(m) => m.clone(),
            OutputError::ProcessWithRaw => String::from_str(
                "cannot specify -r/--process flag with -o/--output raw",
            ),
            OutputError::Envelope(e) => e.message(),
            OutputError::Manifest(e) => e.message(),
            OutputError::NoTypeInformation => String::from_str("resource has no type information"),
            OutputError::NoResources(name) => {
                let mut r = String::from_str("no resources found for installation name \"");
                r.append(name.as_str());
                r.append("\"");
                r
            },
            OutputError::UnexpectedOutputType(o) => {
                let mut r = String::from_str("Unexpected output type: ");
                r.append(o.as_str());
                r
            },
        }
    }
}

pub open spec fn text_result_view(r: Result<String, OutputError>) -> Result<Seq<char>, OutputFault> {
    match r {
        Ok(s) => Ok(s@),
        Err(e) => Err(e.fault()),
    }
}

/// The contents of the files, in order.
pub open spec fn contents_of(files: Seq<(Seq<char>, Seq<char>)>) -> Seq<Seq<char>> {
    Seq::new(files.len(), |i: int| files[i].1)
}

/// The files with their paths below a directory.
pub open spec fn files_below(dir: Seq<char>, files: Seq<(Seq<char>, Seq<char>)>, sep: char) -> Seq<
    (Seq<char>, Seq<char>),
> {
    Seq::new(files.len(), |i: int| (path_join(dir, files[i].0, sep), files[i].1))
}

/// The raw output for a result: its document, without the white space at its ends.
pub open spec fn raw_output(r: Result<OutputView, Seq<char>>) -> Result<Seq<char>, OutputFault> {
    match emitted_text(result_document("MistResult"@, r)) {
        None => Err(OutputFault::Envelope(EnvelopeFault::Emit)),
        Some(t) => Ok(trimmed(t)),
    }
}

/// The YAML output for a result: the contents of its files, with a line of three dashes
/// between them; the failure of the package where it failed.
pub open spec fn yaml_output(r: Result<OutputView, Seq<char>>) -> Result<Seq<char>, OutputFault> {
    match r {
        Err(m) => Err(OutputFault::Package(m)),
        Ok(out) => Ok(joined(contents_of(out.files), "\n---\n"@)),
    }
}

/// A stream of YAML documents with the labels of an install put on each resource.
pub open spec fn processed(yaml: Seq<char>, name: Seq<char>, version: nat) -> Result<
    Seq<char>,
    OutputFault,
> {
    match text_resources(yaml) {
        Err(f) => Err(OutputFault::Manifest(f)),
        Ok(resources) => match all_labelled(resources, identity_labels(name, version)) {
            Err(f) => Err(OutputFault::Manifest(f)),
            Ok(labelled) => match resource_texts(labelled) {
                None => Err(OutputFault::Manifest(ManifestFault::Emit)),
                Some(texts) => Ok(joined(texts, "\n---\n"@)),
            },
        },
    }
}

/// The version that is labelled where none is given.
pub open spec fn version_or_first(version: Option<u32>) -> nat {
    match version {
        Some(v) => v as nat,
        None => 0,
    }
}

/// The YAML output for a result, with the labels of an install on each resource.
pub open spec fn processed_yaml_output(
    r: Result<OutputView, Seq<char>>,
    name: Seq<char>,
    version: nat,
) -> Result<Seq<char>, OutputFault> {
    match yaml_output(r) {
        Err(f) => Err(f),
        Ok(yaml) => processed(yaml, name, version),
    }
}

/// The part of an `apiVersion` between its first slash and its second, where it has a slash.
pub open spec fn second_part(api_version: Seq<char>) -> Option<Seq<char>> {
    let i = first_index_of(api_version, '/');
    if i == api_version.len() {
        None
    } else {
        let rest = api_version.subrange(i + 1, api_version.len() as int);
        Some(rest.subrange(0, first_index_of(rest, '/')))
    }
}

/// The type of a resource as the list shows it: the kind in lower case and, for a kind of a
/// group, a dot and the version.
pub open spec fn full_type(types: TypeMetaView) -> Seq<char> {
    match second_part(types.api_version) {
        Some(v) => lowercased(types.kind) + "."@ + v,
        None => lowercased(types.kind),
    }
}

/// The line of the list for one resource, `None` for a resource without type fields.
pub open spec fn list_line(head: HeadView) -> Option<Seq<char>> {
    match head.types {
        None => None,
        Some(types) => Some(
            full_type(types) + "/"@ + (match head.name {
                Some(n) => n,
                None => "<unknown name>"@,
            }) + " ("@ + (match head.namespace {
                Some(ns) => "in namespace "@ + ns,
                None => "not namespaced"@,
            }) + ")"@,
        ),
    }
}

/// The lines of the list, `None` where a resource has no type fields.
pub open spec fn list_lines(heads: Seq<HeadView>) -> Option<Seq<Seq<char>>>
    decreases heads.len(),
{
    if heads.len() == 0 {
        Some(Seq::empty())
    } else {
        match (list_lines(heads.drop_last()), list_line(heads.last())) {
            (Some(done), Some(line)) => Some(done.push(line)),
            _ => None,
        }
    }
}

/// The list of resources: one line each.
pub open spec fn list_output(heads: Seq<HeadView>) -> Result<Seq<char>, OutputFault> {
    match list_lines(heads) {
        None => Err(OutputFault::NoTypeInformation),
        Some(lines) => Ok(joined(lines, "\n"@)),
    }
}

/// The lines with a word before each.
pub open spec fn prefixed(lines: Seq<Seq<char>>, word: Seq<char>) -> Seq<Seq<char>> {
    Seq::new(lines.len(), |i: int| word + lines[i])
}

/// The list of the resources that were deleted: `deleted` and a space before each line.
pub open spec fn deleted_output(heads: Seq<HeadView>, name: Seq<char>) -> Result<
    Seq<char>,
    OutputFault,
> {
    if heads.len() == 0 {
        Err(OutputFault::NoResources(name))
    } else {
        match list_lines(heads) {
            None => Err(OutputFault::NoTypeInformation),
            Some(lines) => Ok(joined(prefixed(lines, "deleted "@), "\n"@)),
        }
    }
}

/// The result of a run as raw text.
pub trait McOutputRaw: Sized {
    spec fn raw(&self) -> Result<Seq<char>, OutputFault>;

    fn mc_output_raw(self) -> (r: Result<String, OutputError>)
        ensures
            text_result_view(r) == self.raw(),
    ;
}

/// A value as a stream of YAML documents.
pub trait McOutputYaml: Sized {
    spec fn yaml(&self) -> Result<Seq<char>, OutputFault>;

    fn mc_output_yaml(self) -> (r: Result<String, OutputError>)
        ensures
            text_result_view(r) == self.yaml(),
    ;

    /// The stream with the labels of an install on each resource; the version is the first,
    /// `0`, where none is given.
    fn mc_output_processed_yaml(self, name: String, version: Option<u32>) -> (r: Result<
        String,
        OutputError,
    >)
        ensures
            text_result_view(r) == (match self.yaml() {
                Err(f) => Err(f),
                Ok(yaml) => processed(yaml, name@, version_or_first(version)),
            }),
    ;
}

/// Resources as a list, one line each.
pub trait McOutputList: Sized {
    spec fn list(&self) -> Result<Seq<char>, OutputFault>;

    fn mc_output_list(self) -> (r: Result<String, OutputError>)
        ensures
            text_result_view(r) == self.list(),
    ;
}

/// The files of a result below a directory.
pub trait McOutputDir: Sized {
    spec fn dir(&self, path: Seq<char>, sep: char) -> Result<
        Seq<(Seq<char>, Seq<char>)>,
        OutputFault,
    >;

    fn mc_output_dir(self, path: &str, sep: char) -> (r: Result<Vec<(String, String)>, OutputError>)
        ensures
            match r {
                Ok(files) => self.dir(path@, sep) == Ok::<_, OutputFault>(
                    crate::index_map::pair_views(files@),
                ),
                Err(e) => self.dir(path@, sep) == Err::<Seq<(Seq<char>, Seq<char>)>, _>(
                    e.fault(),
                ),
            },
    ;
}

/// Puts the labels of an install on each resource of a stream of YAML documents.
pub fn process_yaml(yaml: &str, name: &str, version: u32) -> (r: Result<String, OutputError>)
    ensures
        text_result_view(r) == processed(yaml@, name@, version as nat),
{
    let resources = match InstallResources::from_str(yaml) {
        Err(e) => { return Err(OutputError::Manifest(e)); },
        Ok(resources) => resources,
    };
    let labelled = match resources.label_resources_with(name, version) {
        Err(e) => { return Err(OutputError::Manifest(e)); },
        Ok(labelled) => labelled,
    };
    match labelled.to_string() {
        Err(e) => Err(OutputError::Manifest(e)),
        Ok(text) => Ok(text),
    }
}

/// The contents of the files of an output, with a line of three dashes between them.
pub fn joined_contents(out: &MistOutput) -> (r: String)
    ensures
        r@ == joined(contents_of(out@.files), "\n---\n"@),
{
    let files = out.file_list();
    let mut contents: Vec<String> = Vec::new();
    let mut i: usize = 0;
    while i < files.len()
        invariant
            i <= files.len(),
            views(contents@) == contents_of(crate::index_map::pair_views(files@)).subrange(
                0,
                i as int,
            ),
        decreases files.len() - i,
    {
        let ghost had = views(contents@);
        contents.push(files[i].1.clone());
        proof {
            assert(views(contents@) =~= had.push(files@[i as int].1@));
            assert(had.push(files@[i as int].1@) =~= contents_of(
                crate::index_map::pair_views(files@),
            ).subrange(0, i + 1));
        }
        i = i + 1;
    }
    assert(contents_of(crate::index_map::pair_views(files@)).subrange(0, files.len() as int)
        =~= contents_of(crate::index_map::pair_views(files@)));
    join(&contents, "\n---\n")
}

impl<'a> McOutputRaw for &'a MistResult {
    open spec fn raw(&self) -> Result<Seq<char>, OutputFault> {
        raw_output(result_view(**self))
    }

    fn mc_output_raw(self) -> (r: Result<String, OutputError>) {
        match serialize_result(self) {
            Err(e) => Err(OutputError::Envelope(e)),
            Ok(text) => Ok(trim(text.as_str())),
        }
    }
}

impl<'a> McOutputYaml for &'a MistResult {
    open spec fn yaml(&self) -> Result<Seq<char>, OutputFault> {
        yaml_output(result_view(**self))
    }

    fn mc_output_yaml(self) -> (r: Result<String, OutputError>) {
        match self {
            Err(e) => Err(OutputError::Package(e.message.clone())),
            Ok(out) => Ok(joined_contents(out)),
        }
    }

    fn mc_output_processed_yaml(self, name: String, version: Option<u32>) -> (r: Result<
        String,
        OutputError,
    >) {
        let yaml = match self.mc_output_yaml() {
            Err(e) => { return Err(e); },
            Ok(yaml) => yaml,
        };
        let v: u32 = match version {
            Some(v) => v,
            None => 0,
        };
        process_yaml(yaml.as_str(), name.as_str(), v)
    }
}

impl<'a> McOutputDir for &'a MistResult {
    open spec fn dir(&self, path: Seq<char>, sep: char) -> Result<
        Seq<(Seq<char>, Seq<char>)>,
        OutputFault,
    > {
        match result_view(**self) {
            Err(m) => Err(OutputFault::Package(m)),
            Ok(out) => Ok(files_below(path, out.files, sep)),
        }
    }

    fn mc_output_dir(self, path: &str, sep: char) -> (r: Result<Vec<(String, String)>, OutputError>) {
        let out = match self {
            Err(e) => { return Err(OutputError::Package(e.message.clone())); },
            Ok(out) => out,
        };
        let files = out.file_list();
        let ghost all = files_below(path@, out@.files, sep);
        let mut placed: Vec<(String, String)> = Vec::new();
        let mut i: usize = 0;
        while i < files.len()
            invariant
                i <= files.len(),
                crate::index_map::pair_views(files@) == out@.files,
                all == files_below(path@, out@.files, sep),
                crate::index_map::pair_views(placed@) == all.subrange(0, i as int),
            decreases files.len() - i,
        {
            let ghost had = crate::index_map::pair_views(placed@);
            let mut at = String::from_str(path);
            crate::registry::push_path(&mut at, files[i].0.as_str(), sep);
            let content = files[i].1.clone();
            placed.push((at, content));
            proof {
                assert(crate::index_map::pair_views(files@)[i as int] == (
                    files@[i as int].0@,
                    files@[i as int].1@,
                ));
                assert(crate::index_map::pair_views(placed@) =~= had.push((at@, content@)));
                assert(had.push((at@, content@)) =~= all.subrange(0, i + 1));
            }
            i = i + 1;
        }
        assert(all.subrange(0, files.len() as int) =~= all);
        Ok(placed)
    }
}

/// The line of the list for one resource.
pub fn line_of(head: &ResourceHead) -> (r: Option<String>)
    ensures
        match r {
            Some(line) => list_line(head@) == Some(line@),
            None => list_line(head@) is None,
        },
{
    let types = match &head.types {
        None => { return None; },
        Some(types) => types,
    };
    let mut line = lowercase(types.kind.as_str());
    let chars = chars_of(types.api_version.as_str());
    let i = index_of(&chars, '/');
    proof {
        lemma_first_index_bounds(chars@, '/');
    }
    if i < chars.len() {
        let mut rest: Vec<char> = Vec::new();
        let mut k: usize = i + 1;
        while k < chars.len()
            invariant
                i + 1 <= k <= chars.len(),
                rest@ == chars@.subrange(i + 1, k as int),
            decreases chars.len() - k,
        {
            rest.push(chars[k]);
            assert(rest@ =~= chars@.subrange(i + 1, k + 1));
            k = k + 1;
        }
        let j = index_of(&rest, '/');
        proof {
            lemma_first_index_bounds(rest@, '/');
        }
        let version = text_of_range(&rest, 0, j);
        line.append(".");
        line.append(version.as_str());
    }
    line.append("/");
    match &head.name {
        Some(n) => line.append(n.as_str()),
        None => line.append("<unknown name>"),
    }
    line.append(" (");
    match &head.namespace {
        Some(ns) => {
            line.append("in namespace ");
            line.append(ns.as_str());
        },
        None => line.append("not namespaced"),
    }
    line.append(")");
    proof {
        assert(line@ =~= list_line(head@)->0);
    }
    Some(line)
}

/// The lines of the list.
pub fn lines_of(heads: &Vec<ResourceHead>) -> (r: Option<Vec<String>>)
    ensures
        match r {
            Some(lines) => list_lines(head_views(heads@)) == Some(views(lines@)),
            None => list_lines(head_views(heads@)) is None,
        },
{
    let mut lines: Vec<String> = Vec::new();
    let mut i: usize = 0;
    assert(views(lines@) =~= Seq::empty());
    while i < heads.len()
        invariant
            i <= heads.len(),
            list_lines(head_views(heads@).subrange(0, i as int)) == Some(views(lines@)),
        decreases heads.len() - i,
    {
        let ghost had = views(lines@);
        proof {
            assert(head_views(heads@).subrange(0, i + 1).drop_last() =~= head_views(
                heads@,
            ).subrange(0, i as int));
            assert(head_views(heads@).subrange(0, i + 1).last() == heads@[i as int]@);
        }
        match line_of(&heads[i]) {
            None => {
                proof {
                    lemma_lines_none_stays(head_views(heads@), i as int);
                }
                return None;
            },
            Some(line) => {
                lines.push(line);
                assert(views(lines@) =~= had.push(line@));
            },
        }
        i = i + 1;
    }
    assert(head_views(heads@).subrange(0, heads.len() as int) =~= head_views(heads@));
    Some(lines)
}

/// A resource without type fields among the first leaves the whole without lines.
pub(crate) proof fn lemma_lines_none_stays(heads: Seq<HeadView>, i: int)
    requires
        0 <= i < heads.len(),
        list_lines(heads.subrange(0, i + 1)) is None,
    ensures
        list_lines(heads) is None,
    decreases heads.len() - i,
{
    if i + 1 == heads.len() {
        assert(heads.subrange(0, i + 1) =~= heads);
    } else {
        assert(heads.subrange(0, i + 2).drop_last() =~= heads.subrange(0, i + 1));
        lemma_lines_none_stays(heads, i + 1);
    }
}

impl<'a> McOutputList for &'a Vec<ResourceHead> {
    open spec fn list(&self) -> Result<Seq<char>, OutputFault> {
        list_output(head_views((**self)@))
    }

    fn mc_output_list(self) -> (r: Result<String, OutputError>) {
        match lines_of(self) {
            None => Err(OutputError::NoTypeInformation),
            Some(lines) => Ok(join(&lines, "\n")),
        }
    }
}

impl<'a> McOutputList for &'a MistResult {
    /// The resources that the files of a result hold, as a list.
    open spec fn list(&self) -> Result<Seq<char>, OutputFault> {
        match yaml_output(result_view(**self)) {
            Err(f) => Err(f),
            Ok(yaml) => match text_resources(yaml) {
                Err(f) => Err(OutputFault::Manifest(f)),
                Ok(resources) => list_output(heads_of_resources(resources)),
            },
        }
    }

    fn mc_output_list(self) -> (r: Result<String, OutputError>) {
        let yaml = match self.mc_output_yaml() {
            Err(e) => { return Err(e); },
            Ok(yaml) => yaml,
        };
        let resources = match InstallResources::from_str(yaml.as_str()) {
            Err(e) => { return Err(OutputError::Manifest(e)); },
            Ok(resources) => resources,
        };
        let heads = resources.heads();
        (&heads).mc_output_list()
    }
}

impl<'a> McOutputYaml for &'a Vec<String> {
    /// Documents, one for each resource, as one stream.
    open spec fn yaml(&self) -> Result<Seq<char>, OutputFault> {
        Ok(joined(views((**self)@), "\n---\n"@))
    }

    fn mc_output_yaml(self) -> (r: Result<String, OutputError>) {
        Ok(join(self, "\n---\n"))
    }

    fn mc_output_processed_yaml(self, name: String, version: Option<u32>) -> (r: Result<
        String,
        OutputError,
    >) {
        let yaml = join(self, "\n---\n");
        let v: u32 = match version {
            Some(v) => v,
            None => 0,
        };
        process_yaml(yaml.as_str(), name.as_str(), v)
    }
}

/// What is printed or written for the result of a run.
#[derive(Debug)]
pub enum Emission {
    /// Text for the standard output.
    Print(String),
    /// Files, by path, to be written in this order.
    Write(Vec<(String, String)>),
}

pub enum EmissionView {
    Print(Seq<char>),
    Write(Seq<(Seq<char>, Seq<char>)>),
}

impl View for Emission {
    type V = EmissionView;

    open spec fn view(&self) -> EmissionView {
        match self {
            Emission::Print(t) => EmissionView::Print(t@),
            Emission::Write(files) => EmissionView::Write(crate::index_map::pair_views(files@)),
        }
    }
}

/// What a command does with the result of a run.
#[derive(Debug)]
pub struct Rendering {
    /// The message of the package, to be shown before anything else.
    pub message: Option<String>,
    pub outcome: Result<Emission, OutputError>,
}

pub open spec fn outcome_view(r: Result<Emission, OutputError>) -> Result<
    EmissionView,
    OutputFault,
> {
    match r {
        Ok(e) => Ok(e@),
        Err(e) => Err(e.fault()),
    }
}

pub open spec fn printed(r: Result<Seq<char>, OutputFault>) -> Result<EmissionView, OutputFault> {
    match r {
        Ok(t) => Ok(EmissionView::Print(t)),
        Err(f) => Err(f),
    }
}

/// What is shown for a result. Processing together with raw output is refused, whatever the
/// result. The failure of a package is passed on in every mode. Otherwise raw output is the
/// result document, YAML output the contents of the files, labelled for the first version of
/// the install where processing is asked for, and a directory takes the files.
pub open spec fn rendered(
    r: Result<OutputView, Seq<char>>,
    mode: ModeView,
    name: Seq<char>,
    process: bool,
    sep: char,
) -> Result<EmissionView, OutputFault> {
    if mode is Raw && process {
        Err(OutputFault::ProcessWithRaw)
    } else {
        match r {
            Err(m) => Err(OutputFault::Package(m)),
            Ok(out) => match mode {
                ModeView::Raw => printed(raw_output(r)),
                ModeView::Yaml => if process {
                    printed(processed_yaml_output(r, name, 0))
                } else {
                    printed(yaml_output(r))
                },
                ModeView::Dir(path) => Ok(EmissionView::Write(files_below(path, out.files, sep))),
            },
        }
    }
}

/// Decides what a command shows for the result of a run.
pub fn output_result(result: &MistResult, mode: &OutputMode, name: &str, process: bool, sep: char) -> (r:
    Rendering)
    ensures
        outcome_view(r.outcome) == rendered(result_view(*result), mode@, name@, process, sep),
        match r.message {
            Some(m) => result_view(*result) matches Ok(out) && out.message == Some(m@),
            None => result_view(*result) matches Ok(out) ==> out.message is None,
        },
        mode@ is Raw && process ==> r.outcome is Err && r.outcome->Err_0 is ProcessWithRaw,
{
    let message = match result {
        Ok(out) => match out.get_message() {
            Some(m) => Some(m.clone()),
            None => None,
        },
        Err(_) => None,
    };
    let outcome = match (mode, process) {
        (OutputMode::Raw, true) => Err(OutputError::ProcessWithRaw),
        _ => match result {
            Err(e) => Err(OutputError::Package(e.message.clone())),
            Ok(_) => match mode {
                OutputMode::Raw => match result.mc_output_raw() {
                    Ok(t) => Ok(Emission::Print(t)),
                    Err(e) => Err(e),
                },
                OutputMode::Yaml => {
                    let text = if process {
                        result.mc_output_processed_yaml(String::from_str(name), None)
                    } else {
                        result.mc_output_yaml()
                    };
                    match text {
                        Ok(t) => Ok(Emission::Print(t)),
                        Err(e) => Err(e),
                    }
                },
                OutputMode::Dir(path) => match result.mc_output_dir(path.as_str(), sep) {
                    Ok(files) => Ok(Emission::Write(files)),
                    Err(e) => Err(e),
                },
            },
        },
    };
    Rendering { message, outcome }
}

/// Processing is refused together with raw output, whatever the result is.
pub proof fn lemma_process_refused_with_raw(
    r: Result<OutputView, Seq<char>>,
    name: Seq<char>,
    sep: char,
)
    ensures
        rendered(r, ModeView::Raw, name, true, sep) == Err::<EmissionView, _>(
            OutputFault::ProcessWithRaw,
        ),
{
}

/// What is shown for the resources of an install: an error where there are none, else the
/// documents as one stream, or the list.
pub open spec fn resources_output(
    heads: Seq<HeadView>,
    documents: Seq<Seq<char>>,
    mode: InspectMode,
    name: Seq<char>,
) -> Result<Seq<char>, OutputFault> {
    if heads.len() == 0 {
        Err(OutputFault::NoResources(name))
    } else {
        match mode {
            InspectMode::Yaml => Ok(joined(documents, "\n---\n"@)),
            InspectMode::List => list_output(heads),
        }
    }
}

/// Decides what is shown for the resources of an install. The documents are the resources
/// as YAML, one each.
pub fn output_resources(
    resources: &Vec<ResourceHead>,
    documents: &Vec<String>,
    mode: InspectMode,
    name: &str,
) -> (r: Result<String, OutputError>)
    ensures
        text_result_view(r) == resources_output(
            head_views(resources@),
            views(documents@),
            mode,
            name@,
        ),
{
    if resources.len() == 0 {
        return Err(OutputError::NoResources(String::from_str(name)));
    }
    match mode {
        InspectMode::Yaml => documents.mc_output_yaml(),
        InspectMode::List => resources.mc_output_list(),
    }
}

/// Decides what is shown for the resources that were deleted.
pub fn output_deleted(resources: &Vec<ResourceHead>, name: &str) -> (r: Result<String, OutputError>)
    ensures
        text_result_view(r) == deleted_output(head_views(resources@), name@),
{
    if resources.len() == 0 {
        return Err(OutputError::NoResources(String::from_str(name)));
    }
    let lines = match lines_of(resources) {
        None => { return Err(OutputError::NoTypeInformation); },
        Some(lines) => lines,
    };
    let mut marked: Vec<String> = Vec::new();
    let mut i: usize = 0;
    while i < lines.len()
        invariant
            i <= lines.len(),
            views(marked@) == prefixed(views(lines@), "deleted "@).subrange(0, i as int),
        decreases lines.len() - i,
    {
        let ghost had = views(marked@);
        let mut line = String::from_str("deleted ");
        line.append(lines[i].as_str());
        marked.push(line);
        proof {
            assert(views(marked@) =~= had.push(line@));
            assert(had.push(line@) =~= prefixed(views(lines@), "deleted "@).subrange(0, i + 1));
        }
        i = i + 1;
    }
    assert(prefixed(views(lines@), "deleted "@).subrange(0, lines.len() as int) =~= prefixed(
        views(lines@),
        "deleted "@,
    ));
    Ok(join(&marked, "\n"))
}

/// The output mode that a command line names: YAML where it names none, raw, or a directory
/// after `dir=`.
pub open spec fn named_mode(text: Option<Seq<char>>) -> Result<ModeView, OutputFault> {
    match text {
        None => Ok(ModeView::Yaml),
        Some(t) => if t == "yaml"@ {
            Ok(ModeView::Yaml)
        } else if t == "raw"@ {
            Ok(ModeView::Raw)
        } else if starts_with(t, "dir="@) {
            Ok(ModeView::Dir(t.subrange(4, t.len() as int)))
        } else {
            Err(OutputFault::UnexpectedOutputType(t))
        },
    }
}

/// Reads the output mode of the command that runs a package.
pub fn parse_output_mode(text: Option<&str>) -> (r: Result<OutputMode, OutputError>)
    ensures
        match r {
            Ok(mode) => named_mode(crate::api::mistinput::text_opt(text)) == Ok::<_, OutputFault>(
                mode@,
            ),
            Err(e) => named_mode(crate::api::mistinput::text_opt(text)) == Err::<ModeView, _>(
                e.fault(),
            ),
        },
{
    let t = match text {
        None => { return Ok(OutputMode::Yaml); },
        Some(t) => t,
    };
    if str_eq(t, "yaml") {
        return Ok(OutputMode::Yaml);
    }
    if str_eq(t, "raw") {
        return Ok(OutputMode::Raw);
    }
    let chars = chars_of(t);
    proof {
        reveal_strlit("dir=");
    }
    if chars.len() >= 4 && chars[0] == 'd' && chars[1] == 'i' && chars[2] == 'r' && chars[3]
        == '=' {
        assert(t@.subrange(0, 4) =~= "dir="@);
        return Ok(OutputMode::Dir(text_of_range(&chars, 4, chars.len())));
    }
    proof {
        if starts_with(t@, "dir="@) {
            assert(t@.subrange(0, 4)[0] == 'd');
            assert(t@.subrange(0, 4)[1] == 'i');
            assert(t@.subrange(0, 4)[2] == 'r');
            assert(t@.subrange(0, 4)[3] == '=');
        }
    }
    Err(OutputError::UnexpectedOutputType(String::from_str(t)))
}

/// The mode that the command line of an inspection names: the list where it names none.
pub open spec fn named_inspect_mode(text: Option<Seq<char>>) -> Result<InspectMode, OutputFault> {
    match text {
        None => Ok(InspectMode::List),
        Some(t) => if t == "list"@ {
            Ok(InspectMode::List)
        } else if t == "yaml"@ {
            Ok(InspectMode::Yaml)
        } else {
            Err(OutputFault::UnexpectedOutputType(t))
        },
    }
}

/// Reads the output mode of the command that inspects an install.
pub fn parse_inspect_mode(text: Option<&str>) -> (r: Result<InspectMode, OutputError>)
    ensures
        match r {
            Ok(mode) => named_inspect_mode(crate::api::mistinput::text_opt(text)) == Ok::<
                _,
                OutputFault,
            >(mode),
            Err(e) => named_inspect_mode(crate::api::mistinput::text_opt(text)) == Err::<
                InspectMode,
                _,
            >(e.fault()),
        },
{
    let t = match text {
        None => { return Ok(InspectMode::List); },
        Some(t) => t,
    };
    if str_eq(t, "list") {
        Ok(InspectMode::List)
    } else if str_eq(t, "yaml") {
        Ok(InspectMode::Yaml)
    } else {
        Err(OutputError::UnexpectedOutputType(String::from_str(t)))
    }
}

} // verus!

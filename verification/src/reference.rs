//! Package references: the text by which a user names a package, either a file on this
//! machine or a versioned package of a registry.

use crate::text::{
    chars_of, count_of, decimal, decimal_text, first_index_of, index_of, join, joined,
    lemma_first_index_bounds, text_of_range, views,
};
use vstd::prelude::*;
use vstd::string::*;

verus! {

/// What a reference names.
pub enum RefView {
    Local(Seq<char>),
    Remote { registry: Seq<char>, package: Seq<char>, version: Seq<char> },
}

/// Why a text is no reference.
pub enum RefFault {
    /// It holds no colon.
    MissingVersion,
    /// It holds this many colons, more than one.
    ExtraColons(nat),
    /// Nothing stands before the colon that could name a registry.
    MissingRegistry,
    /// Only the registry stands before the colon.
    MissingPackage,
    /// Nothing stands behind the colon.
    EmptyVersion,
}

/// Why a text is no reference.
#[derive(Debug, Clone, Copy, PartialEq, Eq, Structural)]
pub enum RefError {
    /// It holds no colon.
    MissingVersion,
    /// It holds this many colons, more than one.
    ExtraColons(usize),
    /// Nothing stands before the colon that could name a registry.
    MissingRegistry,
    /// Only the registry stands before the colon.
    MissingPackage,
    /// Nothing stands behind the colon.
    EmptyVersion,
}

impl View for RefError {
    type V = RefFault;

    open spec fn view(&self) -> RefFault {
        match self {
            RefError::MissingVersion => RefFault::MissingVersion,
            RefError::ExtraColons(n) => RefFault::ExtraColons(*n as nat),
            RefError::MissingRegistry => RefFault::MissingRegistry,
            RefError::MissingPackage => RefFault::MissingPackage,
            RefError::EmptyVersion => RefFault::EmptyVersion,
        }
    }
}

impl RefError {
    pub open spec fn message_text(self) -> Seq<char> {
        match self {
            RefError::MissingVersion =>
                "version must always be specified, in the form `<package>:<version>`"@,
            RefError::ExtraColons(n) => "expected only one ':', found "@ + decimal_text(n as nat),
            RefError::MissingRegistry =>
                "registry must always be specified, in the form `<registry>/<package>:<version>`"@,
            RefError::MissingPackage =>
                "package must always be specified, in the form `<registry>/<package>:<version>`"@,
            RefError::EmptyVersion =>
                "version must not be empty, in the form `<package>:<version>`"@,
        }
    }

    /// The text shown to the user.
    pub fn message(&self) -> (r: String)
        ensures
            r@ == self.message_text(),
    {
        match self {
            RefError::MissingVersion => String::from_str(
                "version must always be specified, in the form `<package>:<version>`",
            ),
            RefError::ExtraColons(n) => {
                let mut r = String::from_str("expected only one ':', found ");
                let digits = decimal(*n as u64);
                r.append(digits.as_str());
                r
            },
            RefError::MissingRegistry => String::from_str(
                "registry must always be specified, in the form `<registry>/<package>:<version>`",
            ),
            RefError::MissingPackage => String::from_str(
                "package must always be specified, in the form `<registry>/<package>:<version>`",
            ),
            RefError::EmptyVersion => String::from_str(
                "version must not be empty, in the form `<package>:<version>`",
            ),
        }
    }
}

/// Whether `c` parts the segments of a path: a slash, or the separator of the platform.
pub open spec fn is_separator(c: char, sep: char) -> bool {
    c == '/' || c == sep
}

/// A reference that begins with a slash, a dot or the separator of the platform names a file.
pub open spec fn is_local(s: Seq<char>, sep: char) -> bool {
    s.len() > 0 && (s[0] == '/' || s[0] == '.' || s[0] == sep)
}

/// The pieces of `path` between its separators; a piece is empty where two separators meet
/// and at a separator that begins or ends the path.
pub open spec fn pieces(path: Seq<char>, sep: char) -> Seq<Seq<char>>
    decreases path.len(),
{
    if path.len() == 0 {
        seq![Seq::empty()]
    } else {
        let before = pieces(path.drop_last(), sep);
        if is_separator(path.last(), sep) {
            before.push(Seq::empty())
        } else {
            before.drop_last().push(before.last().push(path.last()))
        }
    }
}

/// A piece is a segment of the path unless it is empty or a single dot.
pub open spec fn is_segment(piece: Seq<char>) -> bool {
    piece.len() > 0 && piece != seq!['.']
}

/// The segments among the pieces, in order.
pub open spec fn segments_among(all: Seq<Seq<char>>) -> Seq<Seq<char>>
    decreases all.len(),
{
    if all.len() == 0 {
        Seq::empty()
    } else {
        let done = segments_among(all.drop_last());
        if is_segment(all.last()) {
            done.push(all.last())
        } else {
            done
        }
    }
}

/// The segments of a path.
pub open spec fn segments(path: Seq<char>, sep: char) -> Seq<Seq<char>> {
    segments_among(pieces(path, sep))
}

/// What stands before the first colon of `s`.
pub open spec fn before_colon(s: Seq<char>) -> Seq<char> {
    s.subrange(0, first_index_of(s, ':'))
}

/// What stands behind the first colon of `s`.
pub open spec fn after_colon(s: Seq<char>) -> Seq<char>
    recommends
        first_index_of(s, ':') < s.len(),
{
    s.subrange(first_index_of(s, ':') + 1, s.len() as int)
}

/// What the text `s` names, on a platform whose path separator is `sep`.
pub open spec fn parsed_reference(s: Seq<char>, sep: char) -> Result<RefView, RefFault> {
    if is_local(s, sep) {
        Ok(RefView::Local(s))
    } else if count_of(s, ':') == 0 {
        Err(RefFault::MissingVersion)
    } else if count_of(s, ':') > 1 {
        Err(RefFault::ExtraColons(count_of(s, ':')))
    } else {
        let found = segments(before_colon(s), sep);
        if found.len() == 0 {
            Err(RefFault::MissingRegistry)
        } else if found.len() == 1 {
            Err(RefFault::MissingPackage)
        } else if after_colon(s).len() == 0 {
            Err(RefFault::EmptyVersion)
        } else {
            Ok(
                RefView::Remote {
                    registry: found[0],
                    package: joined(found.drop_first(), seq![sep]),
                    version: after_colon(s),
                },
            )
        }
    }
}

/// A reference as it was parsed, before it takes the shape of one of the reference types.
pub enum Reference {
    Local(String),
    Remote { registry: String, package: String, version: String },
}

impl View for Reference {
    type V = RefView;

    open spec fn view(&self) -> RefView {
        match self {
            Reference::Local(p) => RefView::Local(p@),
            Reference::Remote { registry, package, version } => RefView::Remote {
                registry: registry@,
                package: package@,
                version: version@,
            },
        }
    }
}

pub open spec fn result_view(r: Result<Reference, RefError>) -> Result<RefView, RefFault> {
    match r {
        Ok(v) => Ok(v@),
        Err(e) => Err(e@),
    }
}

/// The path separator of the platform, `std::path::MAIN_SEPARATOR`: a slash, or a backslash
/// on Windows. Which of the two it is depends on the platform.
#[verifier::external_body]
pub(crate) fn main_separator() -> (c: char)
    ensures
        c == '/' || c == '\\',
{
    std::path::MAIN_SEPARATOR
}

/// The number of occurrences of `c` in `v`.
pub fn count_char(v: &Vec<char>, c: char) -> (n: usize)
    ensures
        n == count_of(v@, c),
{
    let mut n: usize = 0;
    let mut i: usize = 0;
    while i < v.len()
        invariant
            i <= v.len(),
            n <= i,
            n == count_of(v@.subrange(0, i as int), c),
        decreases v.len() - i,
    {
        proof {
            assert(v@.subrange(0, i + 1).drop_last() =~= v@.subrange(0, i as int));
        }
        if v[i] == c {
            n = n + 1;
        }
        i = i + 1;
    }
    assert(v@.subrange(0, v.len() as int) =~= v@);
    n
}

/// The segments of the path `v[0..end]`.
pub(crate) fn path_segments(v: &Vec<char>, end: usize, sep: char) -> (r: Vec<String>)
    requires
        end <= v.len(),
    ensures
        views(r@) == segments(v@.subrange(0, end as int), sep),
{
    let mut done: Vec<String> = Vec::new();
    let mut from: usize = 0;
    let mut i: usize = 0;
    assert(views(done@) =~= Seq::empty());
    assert(pieces(v@.subrange(0, 0), sep).drop_last() =~= Seq::empty());
    assert(v@.subrange(0, 0) =~= pieces(v@.subrange(0, 0), sep).last());
    while i < end
        invariant
            from <= i <= end <= v.len(),
            pieces(v@.subrange(0, i as int), sep).len() > 0,
            views(done@) == segments_among(pieces(v@.subrange(0, i as int), sep).drop_last()),
            v@.subrange(from as int, i as int) == pieces(v@.subrange(0, i as int), sep).last(),
        decreases end - i,
    {
        let ghost before = pieces(v@.subrange(0, i as int), sep);
        let ghost after = pieces(v@.subrange(0, i + 1), sep);
        proof {
            assert(v@.subrange(0, i + 1).drop_last() =~= v@.subrange(0, i as int));
            assert(v@.subrange(0, i + 1).last() == v@[i as int]);
        }
        if v[i] == '/' || v[i] == sep {
            let ghost had = views(done@);
            if is_segment_range(v, from, i) {
                let piece = text_of_range(v, from, i);
                done.push(piece);
                proof {
                    assert(views(done@) =~= had.push(piece@));
                }
            }
            from = i + 1;
            proof {
                assert(after == before.push(Seq::empty()));
                assert(after.drop_last() =~= before);
                assert(v@.subrange(from as int, i + 1) =~= Seq::<char>::empty());
            }
        } else {
            proof {
                assert(after == before.drop_last().push(before.last().push(v@[i as int])));
                assert(after.drop_last() =~= before.drop_last());
                assert(v@.subrange(from as int, i + 1) =~= v@.subrange(
                    from as int,
                    i as int,
                ).push(v@[i as int]));
            }
        }
        i = i + 1;
    }
    let ghost all = pieces(v@.subrange(0, end as int), sep);
    let ghost had = views(done@);
    if is_segment_range(v, from, end) {
        let piece = text_of_range(v, from, end);
        done.push(piece);
        proof {
            assert(views(done@) =~= had.push(piece@));
        }
    }
    done
}

/// Whether the piece `v[from..to]` is a segment.
fn is_segment_range(v: &Vec<char>, from: usize, to: usize) -> (r: bool)
    requires
        from <= to <= v.len(),
    ensures
        r == is_segment(v@.subrange(from as int, to as int)),
{
    let ghost piece = v@.subrange(from as int, to as int);
    if to == from {
        false
    } else if to - from == 1 && v[from] == '.' {
        assert(piece =~= seq!['.']);
        false
    } else {
        proof {
            if piece == seq!['.'] {
                assert(piece.len() == 1);
                assert(piece[0] == '.');
            }
        }
        true
    }
}

/// Parses a reference on a platform whose path separator is `sep`.
///
/// A text that begins with a slash, a dot or the separator names a local file. Any other
/// text must hold exactly one colon, with a registry and a package path before it and a
/// version behind it: the first segment before the colon is the registry, the segments
/// after it, joined by the separator, are the package, and what stands behind the colon is
/// the version.
pub fn parse_reference(package: &str, sep: char) -> (r: Result<Reference, RefError>)
    ensures
        result_view(r) == parsed_reference(package@, sep),
        !is_local(package@, sep) ==> (r is Ok <==> count_of(package@, ':') == 1 && segments(
            before_colon(package@),
            sep,
        ).len() >= 2 && after_colon(package@).len() > 0),
{
    let chars = chars_of(package);
    if chars.len() > 0 && (chars[0] == '/' || chars[0] == '.' || chars[0] == sep) {
        return Ok(Reference::Local(String::from_str(package)));
    }
    let colons = count_char(&chars, ':');
    if colons == 0 {
        return Err(RefError::MissingVersion);
    }
    if colons > 1 {
        return Err(RefError::ExtraColons(colons));
    }
    let at = index_of(&chars, ':');
    proof {
        lemma_first_index_bounds(chars@, ':');
    }
    let mut found = path_segments(&chars, at, sep);
    if found.len() == 0 {
        return Err(RefError::MissingRegistry);
    }
    if found.len() == 1 {
        return Err(RefError::MissingPackage);
    }
    if at + 1 == chars.len() {
        return Err(RefError::EmptyVersion);
    }
    let version = text_of_range(&chars, at + 1, chars.len());
    let ghost all = views(found@);
    let registry = found.remove(0);
    proof {
        assert(views(found@) =~= all.drop_first());
    }
    let mut between = String::new();
    between.push(sep);
    assert(between@ =~= seq![sep]);
    let package_path = join(&found, between.as_str());
    Ok(Reference::Remote { registry, package: package_path, version })
}

/// A text that names no local file is a reference if and only if it holds exactly one
/// colon, both a registry and a package path stand before it, and a version stands behind
/// it. So a reference of a registry never has an empty half before or behind its colon.
pub proof fn lemma_remote_reference_accepted(s: Seq<char>, sep: char)
    requires
        !is_local(s, sep),
    ensures
        parsed_reference(s, sep) is Ok <==> count_of(s, ':') == 1 && segments(
            before_colon(s),
            sep,
        ).len() >= 2 && after_colon(s).len() > 0,
        parsed_reference(s, sep) is Ok ==> parsed_reference(s, sep)->Ok_0 is Remote,
        parsed_reference(s, sep) is Ok ==> count_of(s, ':') == 1 && before_colon(s).len() > 0
            && after_colon(s).len() > 0,
{
    if before_colon(s).len() == 0 {
        let none = pieces(before_colon(s), sep);
        assert(none.len() == 1);
        assert(none.drop_last().len() == 0);
        assert(!is_segment(none.last()));
        assert(segments_among(none.drop_last()).len() == 0);
        assert(segments(before_colon(s), sep).len() == 0);
    }
}

/// A text that names a local file is kept as it stands.
pub proof fn lemma_local_reference_kept(s: Seq<char>, sep: char)
    requires
        is_local(s, sep),
    ensures
        parsed_reference(s, sep) == Ok::<RefView, RefFault>(RefView::Local(s)),
{
}

} // verus!

//! The few `std::path` operations the library relies on, applied to paths
//! held as text.
//!
//! Each result is named by an uninterpreted spec function of its arguments:
//! std's rules for components and separators are not restated here.

use vstd::prelude::*;

verus! {

/// The view of an optional string.
pub open spec fn opt_view(o: Option<String>) -> Option<Seq<char>> {
    match o {
        Some(s) => Some(s@),
        None => None,
    }
}

/// What `Path::file_name` returns for the path, as text.
pub uninterp spec fn path_file_name_of(path: Seq<char>) -> Option<Seq<char>>;

/// The position of the last `.` in `name`, or -1 when there is none.
pub open spec fn last_dot(name: Seq<char>) -> int
    decreases name.len(),
{
    if name.len() == 0 {
        -1
    } else if name.last() == '.' {
        name.len() - 1
    } else {
        last_dot(name.drop_last())
    }
}

/// The extension of a file name, as std splits it: what follows the last
/// `.`, unless there is no `.` or the only one starts the name.
pub open spec fn name_extension(name: Seq<char>) -> Option<Seq<char>> {
    let i = last_dot(name);
    if i <= 0 {
        None
    } else {
        Some(name.subrange(i + 1, name.len() as int))
    }
}

/// The stem of a file name, as std splits it: what precedes the last `.`,
/// or the whole name when there is no `.` or the only one starts the name.
pub open spec fn name_stem(name: Seq<char>) -> Seq<char> {
    let i = last_dot(name);
    if i <= 0 {
        name
    } else {
        name.subrange(0, i)
    }
}

/// What `Path::extension` returns for the path, as text: the extension of
/// its file name.
pub open spec fn path_extension_of(path: Seq<char>) -> Option<Seq<char>> {
    match path_file_name_of(path) {
        Some(n) => name_extension(n),
        None => None,
    }
}

/// What `Path::file_stem` returns for the path, as text: the stem of its
/// file name.
pub open spec fn path_file_stem_of(path: Seq<char>) -> Option<Seq<char>> {
    match path_file_name_of(path) {
        Some(n) => Some(name_stem(n)),
        None => None,
    }
}

/// What `Path::join` returns for the two paths, as text.
pub uninterp spec fn path_join_of(base: Seq<char>, tail: Seq<char>) -> Seq<char>;

/// What `Path::strip_prefix` returns for the two paths, as text.
pub uninterp spec fn path_strip_prefix_of(path: Seq<char>, base: Seq<char>) -> Option<Seq<char>>;

/// What `Path::starts_with` returns for the two paths (component-wise prefix).
pub uninterp spec fn path_starts_with_of(path: Seq<char>, base: Seq<char>) -> bool;

/// Whether `out` is a tilde expansion of `input`: a leading `~` alone or
/// before a separator stands for some home directory, and any other input
/// stays as it is.
pub open spec fn tilde_expanded(input: Seq<char>, out: Seq<char>) -> bool {
    if input.len() > 0 && input[0] == '~' && (input.len() == 1 || input[1] == '/' || input[1]
        == '\\') {
        exists|home: Seq<char>| out == home + input.drop_first()
    } else {
        out == input
    }
}

/// `shellexpand::tilde(input)`. Claims `tilde_expanded`: an input that does
/// not start with `~` followed by the end or a separator comes back as it is;
/// otherwise the `~` is replaced by the home directory (or kept, where there
/// is none). Which home directory is not stated: it comes from the
/// environment.
#[verifier::external_body]
pub(crate) fn expand_tilde(input: &str) -> (r: String)
    ensures
        tilde_expanded(input@, r@),
{
    shellexpand::tilde(input).into_owned()
}

/// `Path::new(path).file_name()`, as text. Claims that the result is
/// `path_file_name_of` of the argument.
#[verifier::external_body]
pub(crate) fn path_file_name(path: &str) -> (r: Option<String>)
    ensures
        opt_view(r) == path_file_name_of(path@),
{
    std::path::Path::new(path).file_name().and_then(|n| n.to_str()).map(|n| n.to_string())
}

/// `Path::new(path).extension()`, as text. Claims std's documented split:
/// the part of the file name after its last `.`, `None` without a file name,
/// without a `.`, or when the only `.` starts the name.
#[verifier::external_body]
pub(crate) fn path_extension(path: &str) -> (r: Option<String>)
    ensures
        opt_view(r) == path_extension_of(path@),
{
    std::path::Path::new(path).extension().and_then(|n| n.to_str()).map(|n| n.to_string())
}

/// `Path::new(path).file_stem()`, as text. Claims std's documented split:
/// the part of the file name before its last `.`, the whole name without a
/// `.` or when the only `.` starts it, `None` without a file name.
#[verifier::external_body]
pub(crate) fn path_file_stem(path: &str) -> (r: Option<String>)
    ensures
        opt_view(r) == path_file_stem_of(path@),
{
    std::path::Path::new(path).file_stem().and_then(|n| n.to_str()).map(|n| n.to_string())
}

/// `Path::new(base).join(tail)`, as text. Claims that the result is
/// `path_join_of` of the arguments.
#[verifier::external_body]
pub(crate) fn path_join(base: &str, tail: &str) -> (r: String)
    ensures
        r@ == path_join_of(base@, tail@),
{
    std::path::Path::new(base).join(tail).to_string_lossy().into_owned()
}

/// `Path::new(path).strip_prefix(base)`, as text. Claims that the result is
/// `path_strip_prefix_of` of the arguments.
#[verifier::external_body]
pub(crate) fn path_strip_prefix(path: &str, base: &str) -> (r: Option<String>)
    ensures
        opt_view(r) == path_strip_prefix_of(path@, base@),
{
    std::path::Path::new(path).strip_prefix(base).ok().map(|p| p.to_string_lossy().into_owned())
}

/// `Path::new(path).starts_with(base)`. Claims that the result is
/// `path_starts_with_of` of the arguments.
#[verifier::external_body]
pub(crate) fn path_starts_with(path: &str, base: &str) -> (r: bool)
    ensures
        r == path_starts_with_of(path@, base@),
{
    std::path::Path::new(path).starts_with(base)
}

} // verus!

//! File-system paths.
//!
//! A path is a `std::path::PathBuf`, opaque here. What the path functions of
//! the standard library return depends on the platform's rules for
//! separators and prefixes, so their results are named, not described. Every
//! item in this file is believed, not proved.

use vstd::prelude::*;

verus! {

/// `std::path::PathBuf`, carried through as an opaque value.
#[verifier::external_type_specification]
#[verifier::external_body]
pub struct ExPathBuf(std::path::PathBuf);

/// The path that `PathBuf::from` makes of a text.
pub uninterp spec fn path_of(text: Seq<char>) -> std::path::PathBuf;

/// Whether `==` of `PathBuf` holds of two paths.
pub uninterp spec fn same_path(a: std::path::PathBuf, b: std::path::PathBuf) -> bool;

/// What `Path::join` makes of a path and a path to go on with.
pub uninterp spec fn joined(base: std::path::PathBuf, part: std::path::PathBuf) -> std::path::PathBuf;

/// What `Path::parent` returns for a path.
pub uninterp spec fn parent_of(path: std::path::PathBuf) -> Option<std::path::PathBuf>;

/// What `Path::strip_prefix` leaves of a path without a base: `None` where
/// the path does not begin with the base.
pub uninterp spec fn stripped(path: std::path::PathBuf, base: std::path::PathBuf) -> Option<
    std::path::PathBuf,
>;

/// The text that `Path::display` shows for a path.
pub uninterp spec fn path_text(path: std::path::PathBuf) -> Seq<char>;

/// What `Path::file_stem` returns for a path, as a path of its own: `None`
/// where the path has no file name.
pub uninterp spec fn file_stem_of(path: std::path::PathBuf) -> Option<std::path::PathBuf>;

/// What `Path::to_str` returns for a path: `None` where the path is no
/// Unicode text.
pub uninterp spec fn path_as_text(path: std::path::PathBuf) -> Option<Seq<char>>;

/// Calls `Path::display` and writes what it shows.
#[verifier::external_body]
pub(crate) fn path_display(path: &std::path::PathBuf) -> (r: String)
    ensures
        r@ == path_text(*path),
{
    path.display().to_string()
}

/// Calls `Path::file_stem`, and owns what it returns as a path.
#[verifier::external_body]
pub(crate) fn path_file_stem(path: &std::path::PathBuf) -> (r: Option<std::path::PathBuf>)
    ensures
        r == file_stem_of(*path),
{
    path.file_stem().map(std::path::PathBuf::from)
}

/// Calls `Path::to_str`, and owns the text that it returns.
#[verifier::external_body]
pub(crate) fn path_to_text(path: &std::path::PathBuf) -> (r: Option<String>)
    ensures
        crate::message::text_view(r) == path_as_text(*path),
{
    path.to_str().map(|s| s.to_string())
}

/// Calls `PathBuf::from` on a text.
#[verifier::external_body]
pub(crate) fn path_from_text(text: &str) -> (r: std::path::PathBuf)
    ensures
        r == path_of(text@),
{
    std::path::PathBuf::from(text)
}

/// Compares two paths with `==` of `PathBuf`.
#[verifier::external_body]
pub(crate) fn paths_equal(a: &std::path::PathBuf, b: &std::path::PathBuf) -> (r: bool)
    ensures
        r == same_path(*a, *b),
{
    a == b
}

/// Calls `Path::join`.
#[verifier::external_body]
pub(crate) fn path_join(base: &std::path::PathBuf, part: &std::path::PathBuf) -> (r:
    std::path::PathBuf)
    ensures
        r == joined(*base, *part),
{
    base.join(part)
}

/// Calls `Path::parent`, and owns what it returns.
#[verifier::external_body]
pub(crate) fn path_parent(path: &std::path::PathBuf) -> (r: Option<std::path::PathBuf>)
    ensures
        r == parent_of(*path),
{
    path.parent().map(|p| p.to_path_buf())
}

/// Calls `Path::strip_prefix`, and owns what it returns; its error says no
/// more than that the path does not begin with the base.
#[verifier::external_body]
pub(crate) fn path_strip_prefix(path: &std::path::PathBuf, base: &std::path::PathBuf) -> (r: Option<
    std::path::PathBuf,
>)
    ensures
        r == stripped(*path, *base),
{
    path.strip_prefix(base).ok().map(|p| p.to_path_buf())
}

/// Calls `Clone::clone` of `PathBuf`, which copies the path.
#[verifier::external_body]
pub(crate) fn path_clone(path: &std::path::PathBuf) -> (r: std::path::PathBuf)
    ensures
        r == *path,
{
    path.clone()
}

} // verus!

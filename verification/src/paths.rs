//! File-system paths held as text, with `std::path` doing the path algebra.
//!
//! Paths are `String`s here; every question about their components is put
//! to `std::path::Path`, and the answers are named by the spec functions
//! below.

use std::path::{Path, PathBuf};
use vstd::prelude::*;

verus! {

/// `Path::new(a) == Path::new(b)`: equal component by component.
pub uninterp spec fn same_path(a: Seq<char>, b: Seq<char>) -> bool;

/// `Path::new(p).starts_with(base)`: `base` is a whole-component prefix of `p`.
pub uninterp spec fn path_has_prefix(p: Seq<char>, base: Seq<char>) -> bool;

/// The rest of `p` after its prefix `base` (`Path::strip_prefix`).
pub uninterp spec fn path_suffix(p: Seq<char>, base: Seq<char>) -> Seq<char>;

/// `Path::new(a).join(b)`.
pub uninterp spec fn path_joined(a: Seq<char>, b: Seq<char>) -> Seq<char>;

/// `Path::new(p).file_name()`.
pub uninterp spec fn path_file_name(p: Seq<char>) -> Option<Seq<char>>;

/// `Path::new(p).extension()`.
pub uninterp spec fn path_extension(p: Seq<char>) -> Option<Seq<char>>;

/// `Path::new(p).parent()`.
pub uninterp spec fn path_parent(p: Seq<char>) -> Option<Seq<char>>;

/// The components of `p` (`Path::iter`).
pub uninterp spec fn path_components(p: Seq<char>) -> Seq<Seq<char>>;

/// `Path::new(p).is_absolute()`.
pub uninterp spec fn path_is_absolute(p: Seq<char>) -> bool;

/// Whether `a` and `b` name the same path (`Path: PartialEq`, which compares
/// components: so equal texts are always the same path, the comparison goes
/// both ways, and a path starts with any path equal to it).
#[verifier::external_body]
pub(crate) fn paths_equal(a: &str, b: &str) -> (r: bool)
    ensures
        r == same_path(a@, b@),
        r == same_path(b@, a@),
        a@ == b@ ==> r,
        r ==> path_has_prefix(a@, b@),
{
    Path::new(a) == Path::new(b)
}

/// Whether `base` is a whole-component prefix of `p` (`Path::starts_with`;
/// its documentation shows a path starting with itself).
#[verifier::external_body]
pub(crate) fn path_starts_with(p: &str, base: &str) -> (r: bool)
    ensures
        r == path_has_prefix(p@, base@),
        p@ == base@ ==> r,
{
    Path::new(p).starts_with(base)
}

/// `p` with the prefix `base` removed (`Path::strip_prefix`); `None` exactly
/// when `base` is not a prefix of `p`.
#[verifier::external_body]
pub(crate) fn path_strip_prefix(p: &str, base: &str) -> (r: Option<String>)
    ensures
        r is Some <==> path_has_prefix(p@, base@),
        r matches Some(s) ==> s@ == path_suffix(p@, base@),
{
    Path::new(p).strip_prefix(base).ok().map(|s| s.to_string_lossy().into_owned())
}

/// `a` joined with `b` (`Path::join`).
#[verifier::external_body]
pub(crate) fn path_join(a: &str, b: &str) -> (r: String)
    ensures
        r@ == path_joined(a@, b@),
{
    Path::new(a).join(b).to_string_lossy().into_owned()
}

/// The last component of `p` (`Path::file_name`).
#[verifier::external_body]
pub(crate) fn file_name_of(p: &str) -> (r: Option<String>)
    ensures
        r matches Some(s) ==> path_file_name(p@) == Some(s@),
        r is None ==> path_file_name(p@) is None,
{
    Path::new(p).file_name().map(|s| s.to_string_lossy().into_owned())
}

/// The extension of the last component of `p` (`Path::extension`).
#[verifier::external_body]
pub(crate) fn extension_of(p: &str) -> (r: Option<String>)
    ensures
        r matches Some(s) ==> path_extension(p@) == Some(s@),
        r is None ==> path_extension(p@) is None,
{
    Path::new(p).extension().map(|s| s.to_string_lossy().into_owned())
}

/// `p` without its last component (`Path::parent`).
#[verifier::external_body]
pub(crate) fn parent_of(p: &str) -> (r: Option<String>)
    ensures
        r matches Some(s) ==> path_parent(p@) == Some(s@),
        r is None ==> path_parent(p@) is None,
{
    Path::new(p).parent().map(|s| s.to_string_lossy().into_owned())
}

/// The components of `p` (`Path::iter`).
#[verifier::external_body]
pub(crate) fn components_of(p: &str) -> (r: Vec<String>)
    ensures
        r@.map_values(|s: String| s@) == path_components(p@),
{
    Path::new(p).iter().map(|s| s.to_string_lossy().into_owned()).collect()
}

/// Whether `p` is absolute (`Path::is_absolute`).
#[verifier::external_body]
pub(crate) fn is_absolute_path(p: &str) -> (r: bool)
    ensures
        r == path_is_absolute(p@),
{
    Path::new(p).is_absolute()
}

/// `p` as displayed (`Path::display`): a path made from text displays as
/// that text, since it holds valid Unicode and nothing is lost.
#[verifier::external_body]
pub(crate) fn display_of(p: &str) -> (r: String)
    ensures
        r@ == p@,
{
    Path::new(p).display().to_string()
}

/// A list of paths in `Path` order.
pub uninterp spec fn path_sorted(ps: Seq<Seq<char>>) -> Seq<Seq<char>>;

/// `ps` sorted in `Path` order (`slice::sort` on `PathBuf`s, which compares
/// component by component); a sort keeps every path, so the texts come back
/// as they went in, in another order.
#[verifier::external_body]
pub(crate) fn sort_paths(ps: Vec<String>) -> (r: Vec<String>)
    ensures
        r@.map_values(|s: String| s@) == path_sorted(ps@.map_values(|s: String| s@)),
        r@.map_values(|s: String| s@).to_multiset() == ps@.map_values(|s: String| s@).to_multiset(),
{
    let mut v: Vec<PathBuf> = ps.into_iter().map(PathBuf::from).collect();
    v.sort();
    v.into_iter().map(|p| p.to_string_lossy().into_owned()).collect()
}

/// Whether `candidate` is `parent` itself or lies below it.
pub fn is_same_or_descendant(parent: &str, candidate: &str) -> (r: bool)
    ensures
        r == (same_path(candidate@, parent@) || path_has_prefix(candidate@, parent@)),
        r == path_has_prefix(candidate@, parent@),
        candidate@ == parent@ ==> r,
{
    paths_equal(candidate, parent) || path_starts_with(candidate, parent)
}

/// Where a path ends up when `source` is moved to `destination`.
pub open spec fn moved_path(p: Seq<char>, source: Seq<char>, destination: Seq<char>) -> Option<Seq<char>> {
    if same_path(p, source) {
        Some(destination)
    } else if path_has_prefix(p, source) {
        Some(path_joined(destination, path_suffix(p, source)))
    } else {
        None
    }
}

/// The name shown for a path.
pub open spec fn shown_name(p: Seq<char>) -> Seq<char> {
    match path_file_name(p) {
        Some(n) => n,
        None => p,
    }
}

/// Where `path` ends up when `source` is moved to `destination`: the
/// destination itself for the source, the destination joined with the rest
/// for anything below the source, and `None` for anything else.
pub fn path_after_move(path: &str, source: &str, destination: &str) -> (r: Option<String>)
    ensures
        r is Some <==> (same_path(path@, source@) || path_has_prefix(path@, source@)),
        same_path(path@, source@) ==> (r matches Some(d) && d@ == destination@),
        !same_path(path@, source@) && path_has_prefix(path@, source@) ==> r.unwrap()@
            == path_joined(destination@, path_suffix(path@, source@)),
        match r {
            Some(d) => moved_path(path@, source@, destination@) == Some(d@),
            None => moved_path(path@, source@, destination@) is None,
        },
{
    if paths_equal(path, source) {
        let d = destination.to_string();
        return Some(d);
    }
    match path_strip_prefix(path, source) {
        Some(suffix) => Some(path_join(destination, suffix.as_str())),
        None => None,
    }
}

/// Text shown for a path: its last component, or the whole path when it
/// has none.
pub fn display_name(p: &str) -> (r: String)
    ensures
        r@ == shown_name(p@),
{
    match file_name_of(p) {
        Some(n) => n,
        None => display_of(p),
    }
}

} // verus!

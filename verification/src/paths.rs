//! The parts of `std::path` the library relies on, on the Unix platforms
//! the tool supports: each a thin call, its result named.

use std::path::Path;
use vstd::prelude::*;

verus! {

/// The final component of a path, as `Path::file_name` gives it: none for
/// a path that ends in `..` or is the root.
pub uninterp spec fn path_file_name(path: Seq<char>) -> Option<Seq<char>>;

/// The path with its final component replaced by `name` (or `name` pushed
/// when it has none), as `Path::with_file_name` builds it.
pub uninterp spec fn path_with_file_name(path: Seq<char>, name: Seq<char>) -> Seq<char>;

/// Whether `base` is a prefix of `path` component by component, as
/// `Path::starts_with` says.
pub uninterp spec fn path_starts_with(path: Seq<char>, base: Seq<char>) -> bool;

/// Whether two paths are equal component by component, as `Path`'s `==`
/// compares them (so a trailing separator makes no difference).
pub uninterp spec fn path_equal(a: Seq<char>, b: Seq<char>) -> bool;

/// Whether the path has a parent, as `Path::parent` says (the root and the
/// empty path have none).
pub uninterp spec fn path_has_parent(path: Seq<char>) -> bool;

/// The final component of `path`.
///
/// Calls `Path::file_name`; a component of a path given as UTF-8 text is
/// UTF-8, so the conversion back to text keeps it. The contract names the
/// result.
#[verifier::external_body]
pub(crate) fn file_name(path: &str) -> (res: Option<String>)
    ensures
        match res {
            Some(n) => path_file_name(path@) == Some(n@),
            None => path_file_name(path@) is None,
        },
{
    Path::new(path).file_name().map(|name| name.to_string_lossy().into_owned())
}

/// `path` with its final component replaced by `name`.
///
/// Calls `Path::with_file_name`; joining UTF-8 texts gives UTF-8 text. The
/// contract names the result.
#[verifier::external_body]
pub(crate) fn with_file_name(path: &str, name: &str) -> (res: String)
    ensures
        res@ == path_with_file_name(path@, name@),
{
    Path::new(path).with_file_name(name).to_string_lossy().into_owned()
}

/// Whether `base` is a component-wise prefix of `path`.
///
/// Calls `Path::starts_with`. The contract names the result.
#[verifier::external_body]
pub(crate) fn starts_with(path: &str, base: &str) -> (res: bool)
    ensures
        res == path_starts_with(path@, base@),
{
    Path::new(path).starts_with(base)
}

/// Whether `a` and `b` name the same path, component by component.
///
/// Calls `==` on two `Path`s, which std documents as comparing their
/// components. The contract names the result and states that a text is
/// equal, as a path, to itself.
#[verifier::external_body]
pub(crate) fn same_path(a: &str, b: &str) -> (res: bool)
    ensures
        res == path_equal(a@, b@),
        a@ == b@ ==> res,
{
    Path::new(a) == Path::new(b)
}

/// Whether `path` has a parent.
///
/// Calls `Path::parent`. The contract names the result.
#[verifier::external_body]
pub(crate) fn has_parent(path: &str) -> (res: bool)
    ensures
        res == path_has_parent(path@),
{
    Path::new(path).parent().is_some()
}

} // verus!

//! File-system path arithmetic, as `std::path::Path` performs it.

use vstd::prelude::*;
use crate::text::opt_view;

verus! {

/// The parent directory of a path, as `Path::parent` computes it.
pub uninterp spec fn parent_path(p: Seq<char>) -> Option<Seq<char>>;

/// Whether a path is absolute, as `Path::is_absolute` decides it.
pub uninterp spec fn is_absolute_path(p: Seq<char>) -> bool;

/// A path joined onto a directory, as `Path::join` computes it.
pub uninterp spec fn joined_path(dir: Seq<char>, rel: Seq<char>) -> Seq<char>;

/// The file name of a path without its extension, as `Path::file_stem`
/// computes it.
pub uninterp spec fn file_stem_of(p: Seq<char>) -> Option<Seq<char>>;

/// A path in its debug notation, as `{:?}` formats a `Path`.
pub uninterp spec fn path_debug(p: Seq<char>) -> Seq<char>;

/// `Path::parent`: the path without its final component, if it has one.
#[verifier::external_body]
pub fn parent(p: &str) -> (r: Option<String>)
    ensures
        opt_view(r) == parent_path(p@),
{
    std::path::Path::new(p).parent().map(|q| q.to_string_lossy().into_owned())
}

/// `Path::is_absolute`.
#[verifier::external_body]
pub fn is_absolute(p: &str) -> (r: bool)
    ensures
        r == is_absolute_path(p@),
{
    std::path::Path::new(p).is_absolute()
}

/// `Path::join`: `rel` appended to `dir` (or `rel` itself when absolute).
#[verifier::external_body]
pub fn join(dir: &str, rel: &str) -> (r: String)
    ensures
        r@ == joined_path(dir@, rel@),
{
    std::path::Path::new(dir).join(rel).to_string_lossy().into_owned()
}

/// `Path::file_stem`: the final component without its extension.
#[verifier::external_body]
pub fn file_stem(p: &str) -> (r: Option<String>)
    ensures
        opt_view(r) == file_stem_of(p@),
{
    std::path::Path::new(p).file_stem().map(|q| q.to_string_lossy().into_owned())
}

/// The debug notation of a path (`{:?}`).
#[verifier::external_body]
pub fn debug(p: &str) -> (r: String)
    ensures
        r@ == path_debug(p@),
{
    format!("{:?}", std::path::Path::new(p))
}

} // verus!

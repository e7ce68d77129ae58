//! File system paths, held as their text. What `std::path` computes of them is named here.
use std::path::Path;
use vstd::prelude::*;

verus! {

/// The text of an optional string.
pub open spec fn opt_view(o: Option<String>) -> Option<Seq<char>> {
    match o {
        Some(s) => Some(s@),
        None => None,
    }
}

/// `Path::parent` of the path `p`.
pub uninterp spec fn spec_path_parent(p: Seq<char>) -> Option<Seq<char>>;

/// Calls `Path::parent`; the parent, as text, is named by `spec_path_parent`.
#[verifier::external_body]
pub(crate) fn path_parent(p: &str) -> (r: Option<String>)
    ensures
        opt_view(r) == spec_path_parent(p@),
{
    Path::new(p).parent().map(|q| q.to_string_lossy().into_owned())
}

/// `Path::file_stem` of the path `p`.
pub uninterp spec fn spec_path_file_stem(p: Seq<char>) -> Option<Seq<char>>;

/// Calls `Path::file_stem`; the stem is named by `spec_path_file_stem`.
#[verifier::external_body]
pub(crate) fn path_file_stem(p: &str) -> (r: Option<String>)
    ensures
        opt_view(r) == spec_path_file_stem(p@),
{
    Path::new(p).file_stem().map(|q| q.to_string_lossy().into_owned())
}

/// `Path::file_name` of the path `p`.
pub uninterp spec fn spec_path_file_name(p: Seq<char>) -> Option<Seq<char>>;

/// Calls `Path::file_name`; the name is named by `spec_path_file_name`.
#[verifier::external_body]
pub(crate) fn path_file_name(p: &str) -> (r: Option<String>)
    ensures
        opt_view(r) == spec_path_file_name(p@),
{
    Path::new(p).file_name().map(|q| q.to_string_lossy().into_owned())
}

/// `Path::join` of `p` with `q`.
pub uninterp spec fn spec_path_join(p: Seq<char>, q: Seq<char>) -> Seq<char>;

/// Calls `Path::join`; the joined path is named by `spec_path_join`.
#[verifier::external_body]
pub(crate) fn path_join(p: &str, q: &str) -> (r: String)
    ensures
        r@ == spec_path_join(p@, q@),
{
    Path::new(p).join(q).to_string_lossy().into_owned()
}

/// `Path::strip_prefix` of `p` by `base`: `None` when `base` is not a prefix of `p`.
pub uninterp spec fn spec_path_strip_prefix(p: Seq<char>, base: Seq<char>) -> Option<Seq<char>>;

/// Calls `Path::strip_prefix`; the rest of the path is named by `spec_path_strip_prefix`.
#[verifier::external_body]
pub(crate) fn path_strip_prefix(p: &str, base: &str) -> (r: Option<String>)
    ensures
        opt_view(r) == spec_path_strip_prefix(p@, base@),
{
    Path::new(p).strip_prefix(base).ok().map(|q| q.to_string_lossy().into_owned())
}

/// The components of the path `p`, as `Path::components` yields them, each as its text.
pub uninterp spec fn spec_path_components(p: Seq<char>) -> Seq<Seq<char>>;

/// Calls `Path::components`; the component texts are named by `spec_path_components`.
#[verifier::external_body]
pub(crate) fn path_components(p: &str) -> (r: Vec<String>)
    ensures
        r@.map_values(|s: String| s@) == spec_path_components(p@),
{
    Path::new(p).components().map(|c| c.as_os_str().to_string_lossy().into_owned()).collect()
}

} // verus!

//! Terms of a taxonomy.
use vstd::prelude::*;

verus! {

/// A taxonomy term with all its pages.
#[derive(Debug, Clone, PartialEq, Eq)]
pub struct TaxonomyTerm {
    pub name: String,
    pub slug: String,
    pub path: String,
    pub permalink: String,
    /// The paths of the files of its pages.
    pub pages: Vec<String>,
}

} // verus!

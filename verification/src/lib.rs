//! Verified core logic of the Zola static site generator: configuration rules,
//! image-processing arguments, content file naming, text analytics and page ordering.

pub mod config;
pub mod text;
pub mod error;
pub mod imageproc;
pub mod content;
pub mod slugs;
pub mod library;
pub mod pagination;
pub mod paths;
pub mod sorting;
pub mod taxonomies;
pub mod taxonomy_terms;

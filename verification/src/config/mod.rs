//! Site configuration: the plain-data parts of `config.toml` and the rules that act on them.

pub mod highlighting;
pub mod image_compression;
pub mod image_encoders;
pub mod languages;
pub mod link_checker;
pub mod merge;
pub mod markup;
pub mod search;
pub mod site;
pub mod slugify;
pub mod taxonomies;
pub mod theme_css;

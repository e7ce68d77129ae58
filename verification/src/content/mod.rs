//! Content of the site: file information, headings, reading analytics and front matter.

pub mod file_info;
pub mod front_matter;
pub mod headings;
pub mod inherit;
pub mod page;
pub mod page_front_matter;
pub mod section;
pub mod section_front_matter;
pub mod ser;
pub mod sorting;
pub mod taxonomies;
pub mod utils;

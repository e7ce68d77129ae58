//! What a template learns of an image file.
use vstd::prelude::*;

verus! {

/// Size and format of an image, as handed to templates.
#[derive(Debug, Clone, Copy, PartialEq, Eq)]
pub struct ImageMetaResponse {
    pub width: u32,
    pub height: u32,
    pub format: Option<&'static str>,
    pub mime: Option<&'static str>,
}

} // verus!

//! Image processing requests: output formats, resize operations and the sizes they produce.

pub mod filter;
pub mod format;
pub mod helpers;
pub mod meta;
pub mod ops;
pub mod orientation;
pub mod processor;

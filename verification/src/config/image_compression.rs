use vstd::prelude::*;

verus! {

/// The codec that compressed images are encoded to.
#[derive(Clone, Copy, Debug, PartialEq, Eq, Structural)]
pub enum ImageFormat {
    Jpeg,
    Webp,
    Avif,
}

/// The file extension written for each image format.
pub open spec fn spec_file_extension(f: ImageFormat) -> Seq<char> {
    match f {
        ImageFormat::Jpeg => "jpg"@,
        ImageFormat::Webp => "webp"@,
        ImageFormat::Avif => "avif"@,
    }
}

impl ImageFormat {
    pub fn file_extension(&self) -> (ext: &'static str)
        ensures
            ext@ == spec_file_extension(*self),
    {
        match self {
            ImageFormat::Jpeg => "jpg",
            ImageFormat::Webp => "webp",
            ImageFormat::Avif => "avif",
        }
    }
}

/// Number of iterations tried to reach the target SSIM when none is configured.
pub fn default_iterations() -> (n: u8)
    ensures
        n == 5,
{
    5
}

} // verus!

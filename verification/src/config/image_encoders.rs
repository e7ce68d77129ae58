use vstd::prelude::*;

verus! {

/// Search range for AVIF encoding. With one encode iteration, perceptual compression is
/// disabled and images are encoded at the set quality; otherwise a binary search over
/// `min_quality..=max_quality` picks the quality closest to the target.
#[derive(Clone, Copy, Debug, PartialEq, Eq, Hash, Structural)]
pub struct AvifConfiguration {
    pub min_quality: u8,
    pub max_quality: u8,
    pub encode_iterations: u8,
}

impl Default for AvifConfiguration {
    fn default() -> (c: AvifConfiguration)
        ensures
            c == (AvifConfiguration { min_quality: 1, max_quality: 100, encode_iterations: 5 }),
    {
        AvifConfiguration { min_quality: 1, max_quality: 100, encode_iterations: 5 }
    }
}

/// Search range for JPEG encoding, as for AVIF.
#[derive(Clone, Copy, Debug, PartialEq, Eq, Hash, Structural)]
pub struct JpegConfiguration {
    pub min_quality: u8,
    pub max_quality: u8,
    pub encode_iterations: u8,
}

impl Default for JpegConfiguration {
    fn default() -> (c: JpegConfiguration)
        ensures
            c == (JpegConfiguration { min_quality: 1, max_quality: 100, encode_iterations: 5 }),
    {
        JpegConfiguration { min_quality: 1, max_quality: 100, encode_iterations: 5 }
    }
}

/// Search range for WebP encoding, as for AVIF.
#[derive(Clone, Copy, Debug, PartialEq, Eq, Hash, Structural)]
pub struct WebpConfiguration {
    pub min_quality: u8,
    pub max_quality: u8,
    pub encode_iterations: u8,
}

impl Default for WebpConfiguration {
    fn default() -> (c: WebpConfiguration)
        ensures
            c == (WebpConfiguration { min_quality: 0, max_quality: 100, encode_iterations: 5 }),
    {
        WebpConfiguration { min_quality: 0, max_quality: 100, encode_iterations: 5 }
    }
}

/// Encoder settings per output format; none are set by default.
#[derive(Clone, Copy, Debug, PartialEq, Eq, Structural)]
pub struct ImageEncoderConfig {
    pub avif: Option<AvifConfiguration>,
    pub jpeg: Option<JpegConfiguration>,
    pub webp: Option<WebpConfiguration>,
}

impl Default for ImageEncoderConfig {
    fn default() -> (c: ImageEncoderConfig)
        ensures
            c == (ImageEncoderConfig { avif: None, jpeg: None, webp: None }),
    {
        ImageEncoderConfig { avif: None, jpeg: None, webp: None }
    }
}

} // verus!

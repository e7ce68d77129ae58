use vstd::prelude::*;

use crate::error::Error;
use crate::text::{decimal, spec_decimal, str_eq};

verus! {

pub const QUALITY_MIN_JPEG: u8 = 1;
pub const QUALITY_MAX_JPEG: u8 = 100;
pub const QUALITY_MIN_WEBP: u8 = 0;
pub const QUALITY_MAX_WEBP: u8 = 100;
pub const QUALITY_MIN_AVIF: u8 = 1;
pub const QUALITY_MAX_AVIF: u8 = 100;
pub const SPEED_MIN_AVIF: u8 = 1;
pub const SPEED_MAX_AVIF: u8 = 10;
pub const DEFAULT_QUALITY_JPEG: u8 = 75;
pub const DEFAULT_QUALITY_AVIF: u8 = 80;
pub const DEFAULT_SPEED_AVIF: u8 = 5;

/// Thumbnail image format
#[derive(Debug, Clone, Copy, PartialEq, Eq, Structural)]
pub enum Format {
    /// JPEG, The `u8` argument is JPEG quality (in percent).
    Jpeg(u8),
    /// PNG
    Png,
    /// WebP, The `u8` argument is WebP quality (in percent), None meaning lossless.
    WebP(Option<u8>),
    /// AVIF, The first `u8` argument is AVIF quality (in percent). The second is AVIF speed.
    Avif(u8, u8),
}

/// The format name after resolving `auto`: `jpeg` for lossy sources, `png` otherwise.
pub open spec fn spec_resolved_format(is_lossy: bool, format: Seq<char>) -> Seq<char> {
    if format == "auto"@ {
        if is_lossy { "jpeg"@ } else { "png"@ }
    } else {
        format
    }
}

/// Message for a quality or speed outside its inclusive range.
pub open spec fn spec_range_message(what: Seq<char>, codec: Seq<char>, min: u8, max: u8, value: u8) -> Seq<char> {
    what + " for "@ + codec + " must be between "@ + spec_decimal(min as nat) + " and "@
        + spec_decimal(max as nat) + " (inclusive); "@ + spec_decimal(value as nat) + " is not valid"@
}

/// The format requested by the arguments of `resize_image`, or the message of the error.
pub open spec fn spec_format_from_args(
    is_lossy: bool,
    format: Seq<char>,
    quality: Option<u8>,
    speed: Option<u8>,
) -> Result<Format, Seq<char>> {
    let f = spec_resolved_format(is_lossy, format);
    if f == "jpeg"@ || f == "jpg"@ {
        let q = match quality { Some(q) => q, None => DEFAULT_QUALITY_JPEG };
        if QUALITY_MIN_JPEG <= q <= QUALITY_MAX_JPEG {
            Ok(Format::Jpeg(q))
        } else {
            Err(spec_range_message("Quality"@, "JPEG"@, QUALITY_MIN_JPEG, QUALITY_MAX_JPEG, q))
        }
    } else if f == "png"@ {
        Ok(Format::Png)
    } else if f == "webp"@ {
        match quality {
            Some(q) => if q <= QUALITY_MAX_WEBP {
                Ok(Format::WebP(quality))
            } else {
                Err(spec_range_message("Quality"@, "WebP"@, QUALITY_MIN_WEBP, QUALITY_MAX_WEBP, q))
            },
            None => Ok(Format::WebP(None)),
        }
    } else if f == "avif"@ {
        let q = match quality { Some(q) => q, None => DEFAULT_QUALITY_AVIF };
        let s = match speed { Some(s) => s, None => DEFAULT_SPEED_AVIF };
        if !(QUALITY_MIN_AVIF <= q <= QUALITY_MAX_AVIF) {
            Err(spec_range_message("Quality"@, "AVIF"@, QUALITY_MIN_AVIF, QUALITY_MAX_AVIF, q))
        } else if !(SPEED_MIN_AVIF <= s <= SPEED_MAX_AVIF) {
            Err(spec_range_message("Speed"@, "AVIF"@, SPEED_MIN_AVIF, SPEED_MAX_AVIF, s))
        } else {
            Ok(Format::Avif(q, s))
        }
    } else {
        Err("Invalid image format: "@ + format)
    }
}

/// The file extension of each output format.
pub open spec fn spec_format_extension(f: Format) -> Seq<char> {
    match f {
        Format::Png => "png"@,
        Format::Jpeg(_) => "jpg"@,
        Format::WebP(_) => "webp"@,
        Format::Avif(_, _) => "avif"@,
    }
}

fn range_error(what: &str, codec: &str, min: u8, max: u8, value: u8) -> (e: Error)
    ensures
        e.message@ == spec_range_message(what@, codec@, min, max, value),
{
    let mut m = String::from_str(what);
    m.append(" for ");
    m.append(codec);
    m.append(" must be between ");
    m.append(decimal(min as u64).as_str());
    m.append(" and ");
    m.append(decimal(max as u64).as_str());
    m.append(" (inclusive); ");
    m.append(decimal(value as u64).as_str());
    m.append(" is not valid");
    Error { message: m }
}

impl Format {
    /// Parses the output format of an image operation from the template arguments.
    pub fn from_args(is_lossy: bool, format: &str, quality: Option<u8>, speed: Option<u8>) -> (r: Result<Format, Error>)
        ensures
            match spec_format_from_args(is_lossy, format@, quality, speed) {
                Ok(f) => r == Ok::<Format, Error>(f),
                Err(m) => r is Err && r->Err_0.message@ == m,
            },
    {
        let f: &str = if str_eq(format, "auto") {
            if is_lossy { "jpeg" } else { "png" }
        } else {
            format
        };
        if str_eq(f, "jpeg") || str_eq(f, "jpg") {
            let q = match quality { Some(q) => q, None => DEFAULT_QUALITY_JPEG };
            if QUALITY_MIN_JPEG <= q && q <= QUALITY_MAX_JPEG {
                Ok(Format::Jpeg(q))
            } else {
                Err(range_error("Quality", "JPEG", QUALITY_MIN_JPEG, QUALITY_MAX_JPEG, q))
            }
        } else if str_eq(f, "png") {
            Ok(Format::Png)
        } else if str_eq(f, "webp") {
            match quality {
                Some(q) => if q <= QUALITY_MAX_WEBP {
                    Ok(Format::WebP(quality))
                } else {
                    Err(range_error("Quality", "WebP", QUALITY_MIN_WEBP, QUALITY_MAX_WEBP, q))
                },
                None => Ok(Format::WebP(None)),
            }
        } else if str_eq(f, "avif") {
            let q = match quality { Some(q) => q, None => DEFAULT_QUALITY_AVIF };
            if !(QUALITY_MIN_AVIF <= q && q <= QUALITY_MAX_AVIF) {
                return Err(range_error("Quality", "AVIF", QUALITY_MIN_AVIF, QUALITY_MAX_AVIF, q));
            }
            let s = match speed { Some(s) => s, None => DEFAULT_SPEED_AVIF };
            if !(SPEED_MIN_AVIF <= s && s <= SPEED_MAX_AVIF) {
                return Err(range_error("Speed", "AVIF", SPEED_MIN_AVIF, SPEED_MAX_AVIF, s));
            }
            Ok(Format::Avif(q, s))
        } else {
            let mut m = String::from_str("Invalid image format: ");
            m.append(format);
            Err(Error { message: m })
        }
    }

    /// The file extension of the format.
    pub fn extension(&self) -> (ext: &'static str)
        ensures
            ext@ == spec_format_extension(*self),
    {
        match *self {
            Format::Png => "png",
            Format::Jpeg(_) => "jpg",
            Format::WebP(_) => "webp",
            Format::Avif(_, _) => "avif",
        }
    }
}

/// `auto` picks JPEG for a lossy source and PNG otherwise: asking for `auto` is asking for
/// `jpeg` or for `png`, with the same quality and speed, so a lossy source gets a JPEG (at the
/// default quality when none is given) and a lossless one a PNG.
pub proof fn lemma_auto_format(is_lossy: bool, quality: Option<u8>, speed: Option<u8>)
    ensures
        is_lossy ==> spec_format_from_args(true, "auto"@, quality, speed)
            == spec_format_from_args(true, "jpeg"@, quality, speed),
        !is_lossy ==> spec_format_from_args(false, "auto"@, quality, speed)
            == spec_format_from_args(false, "png"@, quality, speed),
        spec_format_from_args(true, "auto"@, None, speed) == Ok::<Format, Seq<char>>(Format::Jpeg(DEFAULT_QUALITY_JPEG)),
        spec_format_from_args(false, "auto"@, quality, speed) == Ok::<Format, Seq<char>>(Format::Png),
{
    reveal_strlit("auto");
    reveal_strlit("jpeg");
    reveal_strlit("jpg");
    reveal_strlit("png");
    assert("auto"@[0] != "jpeg"@[0]);
    assert("auto"@[0] != "png"@[0]);
    assert("png"@[0] != "jpeg"@[0]);
    assert("png"@[0] != "jpg"@[0]);
}

} // verus!

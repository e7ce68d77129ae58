use std::collections::hash_map::DefaultHasher;
use std::hash::{Hash, Hasher};
use vstd::prelude::*;
use vstd::std_specs::hash::DefaultHasherAdditionalSpecFns;

use crate::imageproc::format::{spec_format_extension, Format};
use crate::imageproc::ops::ResizeOperation;
use crate::paths::{path_file_stem, spec_path_file_stem};
use crate::text::{hex_digits, spec_hex_digits};

verus! {

/// The quality and speed that identify a format's output besides its extension.
pub open spec fn spec_quality_speed(f: Format) -> (u8, u8) {
    match f {
        Format::Png => (0, 0),
        Format::Jpeg(q) => (q, 0),
        Format::WebP(None) => (0, 0),
        Format::WebP(Some(q)) => (q, 0),
        Format::Avif(q, s) => (q, s),
    }
}

/// What hashing a format writes: its extension, then quality and speed as single bytes.
pub open spec fn spec_format_hash_writes(f: Format) -> Seq<Seq<u8>> {
    seq![
        vstd::utf8::encode_utf8(spec_format_extension(f)),
        seq![spec_quality_speed(f).0],
        seq![spec_quality_speed(f).1],
    ]
}

impl Format {
    /// Feeds the format to a hasher: two formats that are equal hash the same.
    pub fn hash_into(&self, hasher: &mut DefaultHasher)
        ensures
            final(hasher)@ == old(hasher)@ + spec_format_hash_writes(*self),
    {
        let (quality, speed): (u8, u8) = match *self {
            Format::Png => (0, 0),
            Format::Jpeg(q) => (q, 0),
            Format::WebP(None) => (0, 0),
            Format::WebP(Some(q)) => (q, 0),
            Format::Avif(q, s) => (q, s),
        };
        let ext = self.extension();
        hasher.write(ext.as_bytes());
        let q = [quality];
        hasher.write(&q);
        let s = [speed];
        hasher.write(&s);
        assert(q@ =~= seq![quality]);
        assert(s@ =~= seq![speed]);
        assert(final(hasher)@ =~= old(hasher)@ + spec_format_hash_writes(*self));
    }
}

/// Feeds a resize operation to a hasher with its derived `Hash`, which feeds the variant and
/// then its fields: it only adds writes to what the hasher was fed before. The bytes written
/// depend on the machine's integer layout and are not stated.
#[verifier::external_body]
fn hash_resize_operation(op: &ResizeOperation, hasher: &mut DefaultHasher)
    ensures
        old(hasher)@.len() <= final(hasher)@.len(),
        final(hasher)@.take(old(hasher)@.len() as int) == old(hasher)@,
{
    op.hash(hasher);
}

/// The file name of a processed image: the stem of the input (`unknown` without one), the
/// hash of the operation as 16 hexadecimal digits, and the extension of the output format.
pub open spec fn spec_processed_filename(stem: Seq<char>, hash: u64, format: Format) -> Seq<char> {
    stem + "."@ + spec_hex_digits(hash as nat, 16) + "."@ + spec_format_extension(format)
}

/// The stem used for a processed image: that of the input path, or `unknown`.
pub open spec fn spec_stem_or_unknown(input_path: Seq<char>) -> Seq<char> {
    match spec_path_file_stem(input_path) {
        Some(s) => s,
        None => "unknown"@,
    }
}

/// We only use the input_path to get the file stem.
/// Hashing the resolved `input_path` would include the absolute path to the image
/// with all filesystem components. The hash covers the source text, the operation and the
/// format, in that order.
pub fn get_processed_filename(input_path: &str, input_src: &str, op: &ResizeOperation, format: &Format) -> (name: String)
    ensures
        exists|op_writes: Seq<Seq<u8>>|
            name@ == #[trigger] spec_processed_filename(
                spec_stem_or_unknown(input_path@),
                DefaultHasher::spec_finish(seq![vstd::utf8::encode_utf8(input_src@)] + op_writes
                    + spec_format_hash_writes(*format)),
                *format,
            ),
{
    let mut hasher = DefaultHasher::new();
    hasher.write(input_src.as_bytes());
    let ghost after_src = hasher@;
    hash_resize_operation(op, &mut hasher);
    let ghost op_writes = hasher@.skip(after_src.len() as int);
    let ghost after_op = hasher@;
    format.hash_into(&mut hasher);
    let hash = hasher.finish();
    let mut name = match path_file_stem(input_path) {
        Some(s) => s,
        None => String::from_str("unknown"),
    };
    proof {
        reveal_strlit("unknown");
    }
    assert(name@ == spec_stem_or_unknown(input_path@));
    name.append(".");
    name.append(hex_digits(hash, 16).as_str());
    name.append(".");
    name.append(format.extension());
    proof {
        assert(after_src =~= seq![vstd::utf8::encode_utf8(input_src@)]);
        assert(after_op =~= after_src + op_writes);
        assert(hash == DefaultHasher::spec_finish(seq![vstd::utf8::encode_utf8(input_src@)] + op_writes
            + spec_format_hash_writes(*format)));
        assert(name@ == spec_processed_filename(spec_stem_or_unknown(input_path@), hash, *format));
    }
    name
}

} // verus!

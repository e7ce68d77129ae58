//! The image operations a site asks for, and what is answered to the template that asks.
use vstd::prelude::*;

use crate::config::site::{spec_make_permalink, Config};
use crate::error::Error;
use crate::imageproc::format::{spec_format_from_args, Format};
use crate::imageproc::helpers::{
    get_processed_filename, spec_format_hash_writes, spec_processed_filename, spec_stem_or_unknown,
};
use std::collections::hash_map::DefaultHasher;
use vstd::std_specs::hash::DefaultHasherAdditionalSpecFns;
use crate::imageproc::ops::{
    spec_resize_defined, spec_resize_instructions, FillPlan, ResizeInstructions, ResizeOperation,
};
use crate::paths::{path_join, spec_path_join};
use crate::text::str_eq;

verus! {

/// Holds all data needed to perform a resize operation
#[derive(Debug, PartialEq, Eq)]
pub struct ImageOp {
    pub input_path: String,
    pub output_path: String,
    pub instr: ResizeInstructions,
    pub format: Format,
    /// Whether we actually want to perform that op.
    /// In practice we set it to true if the output file already
    /// exists and is not stale. We do need to keep the ImageOp around for pruning though.
    pub ignore: bool,
}

/// What a template learns of an enqueued image operation.
#[derive(Debug, Clone, PartialEq, Eq)]
pub struct EnqueueResponse {
    /// The final URL for that asset
    pub url: String,
    /// The path to the static asset generated
    pub static_path: String,
    /// New image width
    pub width: u32,
    /// New image height
    pub height: u32,
    /// Original image width
    pub orig_width: u32,
    /// Original image height
    pub orig_height: u32,
}

impl EnqueueResponse {
    /// The response for an image of size `orig_size` given the instructions `instr`: the new
    /// size is the size it is resized to, or the original size when it is not resized.
    pub fn new(url: String, static_path: String, orig_size: (u32, u32), instr: &ResizeInstructions) -> (r: EnqueueResponse)
        ensures
            r.url == url,
            r.static_path == static_path,
            (r.width, r.height) == (match instr.resize_instruction {
                Some(s) => s,
                None => orig_size,
            }),
            (r.orig_width, r.orig_height) == orig_size,
    {
        let (width, height) = match instr.resize_instruction {
            Some(s) => s,
            None => orig_size,
        };
        let (orig_width, orig_height) = orig_size;
        EnqueueResponse { url, static_path, width, height, orig_width, orig_height }
    }
}

/// The folder below `static` that processed images go to.
pub open spec fn spec_resized_subdir() -> Seq<char> {
    "processed_images"@
}

/// Whether two operations are the same: same files, instructions, format and decision.
pub open spec fn same_op(a: ImageOp, b: ImageOp) -> bool {
    a.input_path@ == b.input_path@ && a.output_path@ == b.output_path@ && a.instr == b.instr
        && a.format == b.format && a.ignore == b.ignore
}

/// Whether two sets of instructions are the same.
fn instr_equal(a: &ResizeInstructions, b: &ResizeInstructions) -> (r: bool)
    ensures
        r == (*a == *b),
{
    let crop = match (a.crop_instruction, b.crop_instruction) {
        (Some(x), Some(y)) => x.0 == y.0 && x.1 == y.1 && x.2 == y.2 && x.3 == y.3,
        (None, None) => true,
        _ => false,
    };
    let resize = match (a.resize_instruction, b.resize_instruction) {
        (Some(x), Some(y)) => x.0 == y.0 && x.1 == y.1,
        (None, None) => true,
        _ => false,
    };
    crop && resize
}

/// Whether two operations are the same.
fn ops_equal(a: &ImageOp, b: &ImageOp) -> (r: bool)
    ensures
        r == same_op(*a, *b),
{
    str_eq(a.input_path.as_str(), b.input_path.as_str()) && str_eq(a.output_path.as_str(), b.output_path.as_str())
        && instr_equal(&a.instr, &b.instr) && a.format == b.format && a.ignore == b.ignore
}

/// Image operations are enqueued into a processor and then performed. All output is written
/// in a subdirectory of the site's `static` folder; the sizes of the source images are read,
/// and kept for later, by the program that runs the processor.
pub struct Processor {
    pub base_url: String,
    pub output_dir: String,
    /// The operations to perform, each once
    pub img_ops: Vec<ImageOp>,
}

/// Whether no operation is held twice.
pub open spec fn distinct_ops(ops: Seq<ImageOp>) -> bool {
    forall|i: int, j: int| 0 <= i < j < ops.len() ==> !same_op(ops[i], ops[j])
}

impl Processor {
    /// A processor writing under `base_path/static/processed_images`, whose images are
    /// served under the site's `processed_images` permalink.
    pub fn new(base_path: &str, config: &Config) -> (p: Processor)
        ensures
            p.output_dir@ == spec_path_join(spec_path_join(base_path@, "static"@), spec_resized_subdir()),
            p.base_url@ == spec_make_permalink(config.base_url@, config.feed_filename@, spec_resized_subdir()),
            p.img_ops@.len() == 0,
    {
        let static_dir = path_join(base_path, "static");
        Processor {
            output_dir: path_join(static_dir.as_str(), "processed_images"),
            base_url: config.make_permalink("processed_images"),
            img_ops: Vec::new(),
        }
    }

    /// Serves the processed images under the permalink of `config`.
    pub fn set_base_url(&mut self, config: &Config)
        ensures
            final(self).base_url@ == spec_make_permalink(config.base_url@, config.feed_filename@, spec_resized_subdir()),
            final(self).output_dir == old(self).output_dir,
            final(self).img_ops == old(self).img_ops,
    {
        self.base_url = config.make_permalink("processed_images");
    }

    /// How many operations are enqueued.
    pub fn num_img_ops(&self) -> (n: usize)
        ensures
            n == self.img_ops@.len(),
    {
        self.img_ops.len()
    }

    /// What enqueueing `op` on the image `input_path`, written `input_src` by the template,
    /// gives: the operation to perform and the template's answer. The source is `orig_size`
    /// big and `is_lossy` tells its format; `plan` is how a fill covers its box. The output
    /// file is named by `get_processed_filename`; whether the operation can be skipped is
    /// left to the caller, who looks at the files (`ignore` is `false` here).
    pub fn plan_enqueue(
        &self,
        op: ResizeOperation,
        input_src: &str,
        input_path: &str,
        format: &str,
        quality: Option<u8>,
        speed: Option<u8>,
        orig_size: (u32, u32),
        is_lossy: bool,
        plan: FillPlan,
    ) -> (r: Result<(ImageOp, EnqueueResponse), Error>)
        requires
            spec_resize_defined(op, orig_size, plan),
        ensures
            match spec_format_from_args(is_lossy, format@, quality, speed) {
                Err(m) => r is Err && r->Err_0.message@ == m,
                Ok(f) => r matches Ok((img_op, resp)) && {
                    let filename = resp.url@.skip(self.base_url@.len() as int);
                    &&& exists|op_writes: Seq<Seq<u8>>|
                            filename == #[trigger] spec_processed_filename(
                                spec_stem_or_unknown(input_path@),
                                DefaultHasher::spec_finish(seq![vstd::utf8::encode_utf8(input_src@)] + op_writes
                                    + spec_format_hash_writes(f)),
                                f,
                            )
                    &&& img_op.format == f
                    &&& img_op.input_path@ == input_path@
                    &&& img_op.instr == spec_resize_instructions(op, orig_size, plan)
                    &&& !img_op.ignore
                    &&& resp.url@ == self.base_url@ + filename
                    &&& img_op.output_path@ == spec_path_join(self.output_dir@, filename)
                    &&& resp.static_path@ == spec_path_join(spec_path_join("static"@, spec_resized_subdir()), filename)
                    &&& (resp.width, resp.height) == (match img_op.instr.resize_instruction {
                        Some(s) => s,
                        None => orig_size,
                    })
                    &&& (resp.orig_width, resp.orig_height) == orig_size
                },
            },
    {
        let fmt = Format::from_args(is_lossy, format, quality, speed)?;
        let filename = get_processed_filename(input_path, input_src, &op, &fmt);
        let mut url = self.base_url.clone();
        url.append(filename.as_str());
        assert(url@.skip(self.base_url@.len() as int) =~= filename@);
        let static_dir = path_join("static", "processed_images");
        let static_path = path_join(static_dir.as_str(), filename.as_str());
        let output_path = path_join(self.output_dir.as_str(), filename.as_str());
        let instr = ResizeInstructions::new(op, orig_size, plan);
        let resp = EnqueueResponse::new(url, static_path, orig_size, &instr);
        let img_op = ImageOp {
            input_path: String::from_str(input_path),
            output_path,
            instr,
            format: fmt,
            ignore: false,
        };
        Ok((img_op, resp))
    }

    /// Adds an operation, unless the very same one is already enqueued.
    pub fn insert_op(&mut self, op: ImageOp)
        requires
            distinct_ops(old(self).img_ops@),
        ensures
            distinct_ops(final(self).img_ops@),
            (exists|i: int| 0 <= i < old(self).img_ops@.len() && same_op(old(self).img_ops@[i], op))
                ==> final(self).img_ops@ == old(self).img_ops@,
            !(exists|i: int| 0 <= i < old(self).img_ops@.len() && same_op(old(self).img_ops@[i], op))
                ==> final(self).img_ops@ == old(self).img_ops@.push(op),
            final(self).base_url == old(self).base_url,
            final(self).output_dir == old(self).output_dir,
    {
        let mut i: usize = 0;
        while i < self.img_ops.len()
            invariant
                i <= self.img_ops@.len(),
                self.img_ops == old(self).img_ops,
                distinct_ops(old(self).img_ops@),
                self.base_url == old(self).base_url,
                self.output_dir == old(self).output_dir,
                forall|j: int| 0 <= j < i ==> !same_op(self.img_ops@[j], op),
            decreases self.img_ops.len() - i,
        {
            if ops_equal(&self.img_ops[i], &op) {
                assert(same_op(old(self).img_ops@[i as int], op));
                return;
            }
            i += 1;
        }
        let ghost before = self.img_ops@;
        self.img_ops.push(op);
        assert forall|a: int, b: int| 0 <= a < b < self.img_ops@.len() implies !same_op(self.img_ops@[a], self.img_ops@[b]) by {
            if b < before.len() {
                assert(self.img_ops@[a] == before[a] && self.img_ops@[b] == before[b]);
            } else {
                assert(self.img_ops@[a] == before[a]);
                if same_op(before[a], op) {
                    assert(same_op(op, op));
                }
            }
        }
    }
}

} // verus!

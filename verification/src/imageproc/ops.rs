use vstd::prelude::*;

use crate::error::Error;
use crate::text::str_eq;

verus! {

/// De-serialized & sanitized arguments of `resize_image`
#[derive(Debug, Clone, Copy, PartialEq, Eq, Hash, Structural)]
pub enum ResizeOperation {
    /// A simple scale operation that doesn't take aspect ratio into account
    Scale(u32, u32),
    /// Scales the image to a specified width with height computed such
    /// that aspect ratio is preserved
    FitWidth(u32),
    /// Scales the image to a specified height with width computed such
    /// that aspect ratio is preserved
    FitHeight(u32),
    /// If the image is larger than the specified width or height, scales the image such
    /// that it fits within the specified width and height preserving aspect ratio.
    Fit(u32, u32),
    /// Scales the image such that it fills the specified width and height.
    /// Output will always have the exact dimensions specified.
    Fill(u32, u32),
}

/// The operation named by `op` with the given sizes, or the message of the error.
pub open spec fn spec_resize_op_from_args(op: Seq<char>, width: Option<u32>, height: Option<u32>) -> Result<ResizeOperation, Seq<char>> {
    if op == "fit_width"@ {
        match width {
            Some(w) => Ok(ResizeOperation::FitWidth(w)),
            None => Err("op=\"fit_width\" requires a `width` argument"@),
        }
    } else if op == "fit_height"@ {
        match height {
            Some(h) => Ok(ResizeOperation::FitHeight(h)),
            None => Err("op=\"fit_height\" requires a `height` argument"@),
        }
    } else if op == "scale"@ || op == "fit"@ || op == "fill"@ {
        match (width, height) {
            (Some(w), Some(h)) => Ok(
                if op == "scale"@ {
                    ResizeOperation::Scale(w, h)
                } else if op == "fit"@ {
                    ResizeOperation::Fit(w, h)
                } else {
                    ResizeOperation::Fill(w, h)
                },
            ),
            _ => Err("op="@ + op + " requires a `width` and `height` argument"@),
        }
    } else {
        Err("Invalid image resize operation: "@ + op)
    }
}

impl ResizeOperation {
    /// Checks the arguments of `resize_image` and builds the operation they name.
    pub fn from_args(op: &str, width: Option<u32>, height: Option<u32>) -> (r: Result<ResizeOperation, Error>)
        ensures
            match spec_resize_op_from_args(op@, width, height) {
                Ok(o) => r == Ok::<ResizeOperation, Error>(o),
                Err(m) => r is Err && r->Err_0.message@ == m,
            },
    {
        if str_eq(op, "fit_width") {
            match width {
                Some(w) => Ok(ResizeOperation::FitWidth(w)),
                None => Err(Error { message: String::from_str("op=\"fit_width\" requires a `width` argument") }),
            }
        } else if str_eq(op, "fit_height") {
            match height {
                Some(h) => Ok(ResizeOperation::FitHeight(h)),
                None => Err(Error { message: String::from_str("op=\"fit_height\" requires a `height` argument") }),
            }
        } else if str_eq(op, "scale") || str_eq(op, "fit") || str_eq(op, "fill") {
            match (width, height) {
                (Some(w), Some(h)) => {
                    if str_eq(op, "scale") {
                        Ok(ResizeOperation::Scale(w, h))
                    } else if str_eq(op, "fit") {
                        Ok(ResizeOperation::Fit(w, h))
                    } else {
                        Ok(ResizeOperation::Fill(w, h))
                    }
                },
                _ => {
                    let mut m = String::from_str("op=");
                    m.append(op);
                    m.append(" requires a `width` and `height` argument");
                    Err(Error { message: m })
                },
            }
        } else {
            let mut m = String::from_str("Invalid image resize operation: ");
            m.append(op);
            Err(Error { message: m })
        }
    }
}

/// Contains image crop/resize instructions for use by `Processor`
///
/// The `Processor` applies `crop` first, if any, and then `resize`, if any.
#[derive(Debug, Clone, Copy, PartialEq, Eq, Hash)]
pub struct ResizeInstructions {
    /// x, y, w, h
    pub crop_instruction: Option<(u32, u32, u32, u32)>,
    /// w, h
    pub resize_instruction: Option<(u32, u32)>,
}

/// How a `Fill` operation covers the target box, as decided from the ratio of the
/// width and height scale factors.
#[derive(Debug, Clone, Copy, PartialEq, Eq, Structural)]
pub enum FillPlan {
    /// The aspect ratios are close enough: scale without cropping.
    Scale,
    /// Keep the full width and crop the height down to this many pixels, centered.
    CropHeight(u32),
    /// Keep the full height and crop the width down to this many pixels, centered.
    CropWidth(u32),
}

/// Whether the sizes computed for `args` are defined (no division by a zero dimension), and the
/// crop of a fill plan stays inside the image.
pub open spec fn spec_resize_defined(args: ResizeOperation, orig: (u32, u32), plan: FillPlan) -> bool {
    let (ow, oh) = orig;
    match args {
        ResizeOperation::Scale(_, _) => true,
        ResizeOperation::FitWidth(_) => ow > 0,
        ResizeOperation::FitHeight(_) => oh > 0,
        ResizeOperation::Fit(w, h) => (ow <= w && oh <= h) || (if ow * h > oh * w { ow > 0 } else { oh > 0 }),
        ResizeOperation::Fill(_, _) => match plan {
            FillPlan::Scale => true,
            FillPlan::CropHeight(ch) => ch <= oh,
            FillPlan::CropWidth(cw) => cw <= ow,
        },
    }
}

/// The height keeping the aspect ratio at width `w`, truncated to 32 bits.
pub open spec fn spec_fit_width_height(w: u32, orig: (u32, u32)) -> u32 {
    ((orig.1 * w) / (orig.0 as int)) as u32
}

/// The width keeping the aspect ratio at height `h`, truncated to 32 bits.
pub open spec fn spec_fit_height_width(h: u32, orig: (u32, u32)) -> u32 {
    ((orig.0 * h) / (orig.1 as int)) as u32
}

/// Only a resize to the given size.
pub open spec fn resize_only(w: u32, h: u32) -> ResizeInstructions {
    ResizeInstructions { crop_instruction: None, resize_instruction: Some((w, h)) }
}

/// The crop and resize instructions for an operation on an image of size `orig`.
pub open spec fn spec_resize_instructions(args: ResizeOperation, orig: (u32, u32), plan: FillPlan) -> ResizeInstructions {
    let (ow, oh) = orig;
    match args {
        ResizeOperation::Scale(w, h) => resize_only(w, h),
        ResizeOperation::FitWidth(w) => resize_only(w, spec_fit_width_height(w, orig)),
        ResizeOperation::FitHeight(h) => resize_only(spec_fit_height_width(h, orig), h),
        ResizeOperation::Fit(w, h) => if ow <= w && oh <= h {
            ResizeInstructions { crop_instruction: None, resize_instruction: None }
        } else if ow * h > oh * w {
            resize_only(w, spec_fit_width_height(w, orig))
        } else {
            resize_only(spec_fit_height_width(h, orig), h)
        },
        ResizeOperation::Fill(w, h) => match plan {
            FillPlan::Scale => resize_only(w, h),
            FillPlan::CropHeight(ch) => ResizeInstructions {
                crop_instruction: Some((0, ((oh - ch) / 2) as u32, ow, ch)),
                resize_instruction: Some((w, h)),
            },
            FillPlan::CropWidth(cw) => ResizeInstructions {
                crop_instruction: Some((((ow - cw) / 2) as u32, 0, cw, oh)),
                resize_instruction: Some((w, h)),
            },
        },
    }
}

/// The product of two 32-bit values fits in 64 bits.
proof fn lemma_u32_product(a: u32, b: u32)
    ensures
        a * b <= u64::MAX,
{
    assert(a * b <= 0xffff_ffffu64 * 0xffff_ffffu64) by (nonlinear_arith)
        requires
            a <= 0xffff_ffffu32,
            b <= 0xffff_ffffu32,
    ;
}

impl Default for ResizeInstructions {
    fn default() -> (r: ResizeInstructions)
        ensures
            r.crop_instruction is None,
            r.resize_instruction is None,
    {
        ResizeInstructions { crop_instruction: None, resize_instruction: None }
    }
}

impl ResizeInstructions {
    /// The instructions that perform `args` on an image of size `orig`; for a `Fill`, `plan`
    /// says whether and how it crops (the plan is ignored by the other operations).
    pub fn new(args: ResizeOperation, orig: (u32, u32), plan: FillPlan) -> (r: ResizeInstructions)
        requires
            spec_resize_defined(args, orig, plan),
        ensures
            r == spec_resize_instructions(args, orig, plan),
        decreases (if args is Fit { 1int } else { 0int }),
    {
        let (orig_w, orig_h) = orig;
        let res = ResizeInstructions::default();
        match args {
            ResizeOperation::Scale(w, h) => res.resize((w, h)),
            ResizeOperation::FitWidth(w) => {
                proof { lemma_u32_product(orig_h, w); }
                let h = (orig_h as u64 * w as u64) / orig_w as u64;
                res.resize((w, #[verifier::truncate] (h as u32)))
            },
            ResizeOperation::FitHeight(h) => {
                proof { lemma_u32_product(orig_w, h); }
                let w = (orig_w as u64 * h as u64) / orig_h as u64;
                res.resize((#[verifier::truncate] (w as u32), h))
            },
            ResizeOperation::Fit(w, h) => {
                if orig_w <= w && orig_h <= h {
                    return res;
                }
                proof {
                    lemma_u32_product(orig_w, h);
                    lemma_u32_product(orig_h, w);
                }
                let orig_w_h = orig_w as u64 * h as u64;
                let orig_h_w = orig_h as u64 * w as u64;
                if orig_w_h > orig_h_w {
                    Self::new(ResizeOperation::FitWidth(w), orig, plan)
                } else {
                    Self::new(ResizeOperation::FitHeight(h), orig, plan)
                }
            },
            ResizeOperation::Fill(w, h) => {
                match plan {
                    FillPlan::Scale => res.resize((w, h)),
                    FillPlan::CropHeight(crop_h) => {
                        res.crop((0, (orig_h - crop_h) / 2, orig_w, crop_h)).resize((w, h))
                    },
                    FillPlan::CropWidth(crop_w) => {
                        res.crop(((orig_w - crop_w) / 2, 0, crop_w, orig_h)).resize((w, h))
                    },
                }
            },
        }
    }

    /// Sets the crop instruction.
    pub fn crop(self, crop: (u32, u32, u32, u32)) -> (r: ResizeInstructions)
        ensures
            r.crop_instruction == Some(crop),
            r.resize_instruction == self.resize_instruction,
    {
        let mut s = self;
        s.crop_instruction = Some(crop);
        s
    }

    /// Sets the resize instruction.
    pub fn resize(self, size: (u32, u32)) -> (r: ResizeInstructions)
        ensures
            r.resize_instruction == Some(size),
            r.crop_instruction == self.crop_instruction,
    {
        let mut s = self;
        s.resize_instruction = Some(size);
        s
    }
}

/// A fill resizes to exactly the asked size, and its crop, if any, stays inside the image and
/// keeps either its full width or its full height.
pub proof fn lemma_fill_crop_inside(w: u32, h: u32, orig: (u32, u32), plan: FillPlan)
    requires
        spec_resize_defined(ResizeOperation::Fill(w, h), orig, plan),
    ensures
        ({
            let r = spec_resize_instructions(ResizeOperation::Fill(w, h), orig, plan);
            &&& r.resize_instruction == Some((w, h))
            &&& r.crop_instruction matches Some(c) ==> {
                &&& c.0 + c.2 <= orig.0
                &&& c.1 + c.3 <= orig.1
                &&& (c.0 == 0 && c.2 == orig.0) || (c.1 == 0 && c.3 == orig.1)
            }
        }),
{
}

/// A quotient below a bound: `n / d <= b` when `n <= d * b` and `d > 0`.
proof fn lemma_quotient_at_most(n: int, d: int, b: int)
    requires
        0 <= n,
        0 < d,
        0 <= b,
        n <= d * b,
    ensures
        n / d <= b,
{
    assert(n / d <= b) by (nonlinear_arith)
        requires
            0 <= n,
            0 < d,
            0 <= b,
            n <= d * b,
    ;
}

/// `Fit` leaves an image alone only when it already fits in the box; otherwise it scales it
/// to fit inside the box, keeping one side at the box's size, and never crops.
pub proof fn lemma_fit_within_box(w: u32, h: u32, orig: (u32, u32), plan: FillPlan)
    requires
        spec_resize_defined(ResizeOperation::Fit(w, h), orig, plan),
    ensures
        ({
            let r = spec_resize_instructions(ResizeOperation::Fit(w, h), orig, plan);
            &&& r.crop_instruction is None
            &&& (r.resize_instruction is None <==> (orig.0 <= w && orig.1 <= h))
            &&& r.resize_instruction matches Some(s) ==> s.0 <= w && s.1 <= h && (s.0 == w || s.1 == h)
        }),
{
    let (ow, oh) = orig;
    if !(ow <= w && oh <= h) {
        if ow * h > oh * w {
            assert(ow > 0);
            assert(oh * w <= ow * h) by (nonlinear_arith)
                requires ow * h > oh * w;
            lemma_quotient_at_most(oh * w, ow as int, h as int);
            let q = (oh * w) / (ow as int);
            assert(0 <= q) by (nonlinear_arith)
                requires ow > 0, q == (oh * w) / (ow as int), oh * w >= 0;
            assert(q as u32 == q);
        } else {
            assert(oh > 0);
            assert(ow * h <= oh * w);
            lemma_quotient_at_most(ow * h, oh as int, w as int);
            let q = (ow * h) / (oh as int);
            assert(0 <= q) by (nonlinear_arith)
                requires oh > 0, q == (ow * h) / (oh as int), ow * h >= 0;
            assert(q as u32 == q);
        }
    }
}

} // verus!

//! What the EXIF orientation of a photo asks for before it is shown upright.
use vstd::prelude::*;

verus! {

/// The transform that shows an image upright, for each EXIF orientation that needs one.
#[derive(Debug, Clone, Copy, PartialEq, Eq, Structural)]
pub enum OrientationFix {
    FlipHorizontal,
    Rotate180,
    FlipVertical,
    FlipHorizontalThenRotate270,
    Rotate90,
    FlipHorizontalThenRotate90,
    Rotate270,
}

/// The transform for the EXIF orientation `o` (values 2 to 8; 1 and unknown values need
/// none), as the CIPA DC-008 standard defines them.
pub open spec fn spec_orientation_fix(o: u32) -> Option<OrientationFix> {
    if o == 2 {
        Some(OrientationFix::FlipHorizontal)
    } else if o == 3 {
        Some(OrientationFix::Rotate180)
    } else if o == 4 {
        Some(OrientationFix::FlipVertical)
    } else if o == 5 {
        Some(OrientationFix::FlipHorizontalThenRotate270)
    } else if o == 6 {
        Some(OrientationFix::Rotate90)
    } else if o == 7 {
        Some(OrientationFix::FlipHorizontalThenRotate90)
    } else if o == 8 {
        Some(OrientationFix::Rotate270)
    } else {
        None
    }
}

/// The transform that shows upright an image whose EXIF orientation is `orientation`.
pub fn fix_orientation(orientation: u32) -> (r: Option<OrientationFix>)
    ensures
        r == spec_orientation_fix(orientation),
{
    match orientation {
        2 => Some(OrientationFix::FlipHorizontal),
        3 => Some(OrientationFix::Rotate180),
        4 => Some(OrientationFix::FlipVertical),
        5 => Some(OrientationFix::FlipHorizontalThenRotate270),
        6 => Some(OrientationFix::Rotate90),
        7 => Some(OrientationFix::FlipHorizontalThenRotate90),
        8 => Some(OrientationFix::Rotate270),
        _ => None,
    }
}

/// The size an image of `w`×`h` shows once upright: width and height swap for the
/// orientations 5 to 8, which turn it a quarter; `None` when they do not.
pub fn get_rotated_size(w: u32, h: u32, orientation: u32) -> (r: Option<(u32, u32)>)
    ensures
        r == (if 5 <= orientation <= 8 { Some((h, w)) } else { None::<(u32, u32)> }),
{
    if 5 <= orientation && orientation <= 8 {
        Some((h, w))
    } else {
        None
    }
}

} // verus!

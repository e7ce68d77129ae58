//! The resampling filters that image resizing can be asked for.
use vstd::prelude::*;

use crate::error::Error;
use crate::text::str_eq;

verus! {

/// A resampling filter, as the image library names them.
#[derive(Debug, Clone, Copy, PartialEq, Eq, Structural)]
pub enum FilterType {
    Nearest,
    Triangle,
    CatmullRom,
    Gaussian,
    Lanczos3,
}

/// The filter named `filter`, or the message listing the valid names.
pub open spec fn spec_filter_type(filter: Seq<char>) -> Result<FilterType, Seq<char>> {
    if filter == "nearest"@ {
        Ok(FilterType::Nearest)
    } else if filter == "triangle"@ {
        Ok(FilterType::Triangle)
    } else if filter == "catmull_rom"@ {
        Ok(FilterType::CatmullRom)
    } else if filter == "gaussian"@ {
        Ok(FilterType::Gaussian)
    } else if filter == "lanczos3"@ {
        Ok(FilterType::Lanczos3)
    } else {
        Err("Invalid filter type : "@ + filter + ". Valid values: nearest, triangle, catmull_rom, gaussian, lanczos3"@)
    }
}

/// Reads the name of a resampling filter.
pub fn filter_type_from_name(filter: &str) -> (r: Result<FilterType, Error>)
    ensures
        match spec_filter_type(filter@) {
            Ok(f) => r matches Ok(g) && g == f,
            Err(m) => r is Err && r->Err_0.message@ == m,
        },
{
    if str_eq(filter, "nearest") {
        Ok(FilterType::Nearest)
    } else if str_eq(filter, "triangle") {
        Ok(FilterType::Triangle)
    } else if str_eq(filter, "catmull_rom") {
        Ok(FilterType::CatmullRom)
    } else if str_eq(filter, "gaussian") {
        Ok(FilterType::Gaussian)
    } else if str_eq(filter, "lanczos3") {
        Ok(FilterType::Lanczos3)
    } else {
        let mut m = String::from_str("Invalid filter type : ");
        m.append(filter);
        m.append(". Valid values: nearest, triangle, catmull_rom, gaussian, lanczos3");
        Err(Error { message: m })
    }
}

} // verus!

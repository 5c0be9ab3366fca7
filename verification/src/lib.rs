use vstd::prelude::*;

pub mod b64;
pub mod compose;
pub mod doc;
pub mod engine;
pub mod error;
pub mod fixed;
pub mod gen_abstract;
pub mod gen_dots;
pub mod gen_geometric;
pub mod gen_gradient;
pub mod gen_isometric;
pub mod gen_lineart;
pub mod gen_minimal;
pub mod gen_silkflow;
pub mod gen_sunburst;
pub mod gen_waves;
pub mod models;
pub mod monitor;
pub mod palette;
pub mod raster;
pub mod rng;
pub mod styles;
pub mod svg;
pub mod wallctl;

verus! {

/// Largest width or height, in pixels, that the engine will rasterize.
pub const MAX_DIM: u32 = 100000;

/// Largest pixel count the engine will rasterize: four bytes per pixel
/// must stay within the rasterizer's i32 buffer limit.
pub const MAX_AREA: u64 = 536870911;

/// A target dimension pair is drawable when both axes are positive and
/// the pixel buffer they describe is of a size the rasterizer can allocate.
pub open spec fn spec_valid_dims(w: u32, h: u32) -> bool {
    &&& 1 <= w <= MAX_DIM
    &&& 1 <= h <= MAX_DIM
    &&& w * h <= MAX_AREA
}

pub fn valid_dims(w: u32, h: u32) -> (r: bool)
    ensures
        r == spec_valid_dims(w, h),
{
    if w < 1 || w > MAX_DIM || h < 1 || h > MAX_DIM {
        return false;
    }
    proof {
        assert((w as u64) * (h as u64) <= 100000 * 100000) by (nonlinear_arith)
            requires w <= 100000, h <= 100000;
    }
    (w as u64) * (h as u64) <= MAX_AREA
}

} // verus!

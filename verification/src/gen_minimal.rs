use vstd::prelude::*;
use crate::doc::{Primitive, prim_wf, prim_colors_from};
use crate::palette::{Palette, pick};
use crate::rng::RandomStream;

verus! {

/// One shape of the minimal layer: a circle, a horizontal line or a
/// small square, at an opacity between 0.3 and 0.8, confined toward the
/// canvas center (the 10 to 90 percent band; circles keep to 20 to 80
/// percent, lines span from the left 30 percent to the right 30
/// percent).  `wd` and `hd` are the canvas size in deci-pixels.
pub open spec fn minimal_shape(p: Primitive, accents: Seq<u32>, wd: int, hd: int) -> bool {
    &&& prim_wf(p)
    &&& prim_colors_from(p, accents)
    &&& match p {
        Primitive::Circle { cx, cy, r, opacity, .. } => {
            &&& 30 <= opacity <= 79
            &&& 2 * wd / 10 <= cx <= 8 * wd / 10
            &&& 2 * hd / 10 <= cy <= 8 * hd / 10
            &&& wd * 5 / 100 <= r <= 2 * wd / 10
        },
        Primitive::Line { x1, y1, x2, y2, width, opacity, .. } => {
            &&& y1 == y2 && width == 20 && 30 <= opacity <= 79
            &&& hd / 10 <= y1 <= 9 * hd / 10
            &&& 0 <= x1 <= 3 * wd / 10
            &&& 7 * wd / 10 <= x2 <= wd
        },
        Primitive::Rect { x, y, w, h, opacity, .. } => {
            &&& w == h && 30 <= opacity <= 79
            &&& wd * 2 / 100 <= w <= wd * 8 / 100
            &&& wd / 10 <= x <= 9 * wd / 10
            &&& hd / 10 <= y <= 9 * hd / 10
        },
        _ => false,
    }
}

/// The minimal generator's guarantee: 3 to 5 shapes of the three minimal
/// kinds, colors drawn from the accent list, kept toward the center.
pub open spec fn minimal_output(ps: Seq<Primitive>, accents: Seq<u32>, w: u32, h: u32) -> bool {
    &&& 3 <= ps.len() <= 5
    &&& forall|i: int|
        0 <= i < ps.len() ==> minimal_shape(
            #[trigger] ps[i],
            accents,
            (w as int) * 10,
            (h as int) * 10,
        )
}

/// A handful of quiet shapes kept toward the canvas center.
pub fn gen_minimal(rng: &mut RandomStream, pal: &Palette, w: u32, h: u32) -> (out: Vec<Primitive>)
    requires
        1 <= w <= crate::MAX_DIM,
        1 <= h <= crate::MAX_DIM,
        pal.accents@.len() >= 1,
    ensures
        minimal_output(out@, pal.accents@, w, h),
{
    let wd: i64 = (w as i64) * 10;
    let hd: i64 = (h as i64) * 10;
    let count = rng.range_i64(3, 6);
    let mut out: Vec<Primitive> = Vec::new();
    let mut it: i64 = 0;
    while it < count
        invariant
            3 <= count <= 5,
            0 <= it <= count,
            out@.len() == it,
            pal.accents@.len() >= 1,
            10 <= wd <= 1_000_000,
            10 <= hd <= 1_000_000,
            forall|i: int| 0 <= i < out@.len() ==> minimal_shape(#[trigger] out@[i], pal.accents@, wd as int, hd as int),
        decreases count - it,
    {
        let color = pick(rng, pal);
        let opacity = rng.range_i64(30, 80) as u32;
        let shape = rng.below_u64(3);
        if shape == 0 {
            let cx = rng.range_or_lo(wd * 2 / 10, wd * 8 / 10);
            let cy = rng.range_or_lo(hd * 2 / 10, hd * 8 / 10);
            let r = rng.range_or_lo(wd * 5 / 100, wd * 2 / 10);
            out.push(Primitive::Circle { cx, cy, r, fill: color, opacity });
        } else if shape == 1 {
            let y = rng.range_or_lo(hd / 10, hd * 9 / 10);
            let x1 = rng.range_i64(0, wd * 3 / 10 + 1);
            let x2 = rng.range_or_lo(wd * 7 / 10, wd);
            out.push(
                Primitive::Line { x1, y1: y, x2, y2: y, stroke: color, width: 20, opacity },
            );
        } else {
            let size = rng.range_or_lo(wd * 2 / 100, wd * 8 / 100);
            let x = rng.range_or_lo(wd / 10, wd * 9 / 10 - size);
            let y = rng.range_or_lo(hd / 10, hd * 9 / 10 - size);
            out.push(Primitive::Rect { x, y, w: size, h: size, fill: color, opacity });
        }
        it = it + 1;
    }
    out
}

} // verus!

use vstd::prelude::*;
use crate::doc::{Primitive, Pt, prim_wf, prim_colors_from};
use crate::fixed::{cos_milli, scale_milli, sin_milli};
use crate::palette::{Palette, pick};
use crate::rng::RandomStream;

verus! {

/// Every vertex lies in the square of half-side `sz` around `(cx, cy)`.
pub open spec fn polygon_centered(pts: Seq<Pt>, cx: int, cy: int, sz: int) -> bool {
    forall|i: int|
        0 <= i < pts.len() ==> {
            &&& cx - sz <= (#[trigger] pts[i]).x <= cx + sz
            &&& cy - sz <= pts[i].y <= cy + sz
        }
}

/// One shape of the geometric layer: a triangle or hexagon polygon, a
/// rotated rectangle, or a circle, painted in an accent color at an
/// opacity between 0.15 and 0.7, sized in the per-kind bands (triangles
/// 5 to 25 percent of the width, hexagons 3 to 15, rectangles 5 to 30
/// per axis, circles 2 to 15).  `wd` and `hd` are the canvas size in
/// deci-pixels.
pub open spec fn geometric_shape(p: Primitive, accents: Seq<u32>, wd: int, hd: int) -> bool {
    &&& prim_wf(p)
    &&& prim_colors_from(p, accents)
    &&& match p {
        Primitive::Polygon { points, opacity, .. } => {
            &&& (points@.len() == 3 || points@.len() == 6)
            &&& 15 <= opacity <= 70
            &&& (points@.len() == 3 ==> exists|cx: int, cy: int, sz: int|
                {
                    &&& #[trigger] polygon_centered(points@, cx, cy, sz)
                    &&& 0 <= cx < wd && 0 <= cy < hd
                    &&& wd * 5 / 100 <= sz <= wd * 25 / 100
                })
            &&& (points@.len() == 6 ==> exists|cx: int, cy: int, sz: int|
                {
                    &&& #[trigger] polygon_centered(points@, cx, cy, sz)
                    &&& 0 <= cx < wd && 0 <= cy < hd
                    &&& wd * 3 / 100 <= sz <= wd * 15 / 100
                })
        },
        Primitive::RotRect { x, y, w, h, angle, opacity, .. } => {
            &&& 15 <= opacity <= 70
            &&& angle < 3600
            &&& -(wd / 10) <= x < wd && -(hd / 10) <= y < hd
            &&& wd * 5 / 100 <= w <= wd * 30 / 100
            &&& hd * 5 / 100 <= h <= hd * 30 / 100
        },
        Primitive::Circle { cx, cy, r, opacity, .. } => {
            &&& 15 <= opacity <= 70
            &&& 0 <= cx < wd && 0 <= cy < hd
            &&& wd * 2 / 100 <= r <= wd * 15 / 100
        },
        _ => false,
    }
}

/// The geometric generator's guarantee: 15 to 29 shapes, each of the
/// three geometric kinds, all colors drawn from the accent list.
pub open spec fn geometric_output(ps: Seq<Primitive>, accents: Seq<u32>, w: u32, h: u32) -> bool {
    &&& 15 <= ps.len() <= 29
    &&& forall|i: int|
        0 <= i < ps.len() ==> geometric_shape(
            #[trigger] ps[i],
            accents,
            (w as int) * 10,
            (h as int) * 10,
        )
}

/// Scattered triangles, hexagons, rotated rectangles and circles.
pub fn gen_geometric(rng: &mut RandomStream, pal: &Palette, w: u32, h: u32) -> (out: Vec<Primitive>)
    requires
        1 <= w <= crate::MAX_DIM,
        1 <= h <= crate::MAX_DIM,
        pal.accents@.len() >= 1,
    ensures
        geometric_output(out@, pal.accents@, w, h),
{
    let wd: i64 = (w as i64) * 10;
    let hd: i64 = (h as i64) * 10;
    let count = rng.range_i64(15, 30);
    let mut out: Vec<Primitive> = Vec::new();
    let mut it: i64 = 0;
    while it < count
        invariant
            15 <= count <= 29,
            0 <= it <= count,
            out@.len() == it,
            pal.accents@.len() >= 1,
            10 <= wd <= 1_000_000,
            10 <= hd <= 1_000_000,
            forall|i: int| 0 <= i < out@.len() ==> geometric_shape(#[trigger] out@[i], pal.accents@, wd as int, hd as int),
        decreases count - it,
    {
        let color = pick(rng, pal);
        let opacity = rng.range_i64(15, 70) as u32;
        let shape_type = rng.below_u64(4);
        if shape_type == 0 {
            // Triangle: three vertices evenly spaced around a random center.
            let cx = rng.range_i64(0, wd);
            let cy = rng.range_i64(0, hd);
            let size = rng.range_or_lo(wd * 5 / 100, wd * 25 / 100);
            let angle = rng.range_i64(0, 3600);
            let mut points: Vec<Pt> = Vec::new();
            let mut k: i64 = 0;
            while k < 3
                invariant
                    0 <= k <= 3,
                    points@.len() == k,
                    0 <= angle < 3600,
                    0 <= cx <= 1_000_000,
                    0 <= cy <= 1_000_000,
                    0 <= size <= 250_000,
                    forall|i: int| 0 <= i < points@.len() ==> crate::doc::pt_wf(
                        #[trigger] points@[i],
                    ),
                    polygon_centered(points@, cx as int, cy as int, size as int),
                decreases 3 - k,
            {
                let a = ((angle + k * 1200) % 3600) as u32;
                let px = cx + scale_milli(size, cos_milli(a));
                let py = cy + scale_milli(size, sin_milli(a));
                points.push(Pt { x: px, y: py });
                proof {
                    assert(polygon_centered(points@, cx as int, cy as int, size as int));
                }
                k = k + 1;
            }
            out.push(Primitive::Polygon { points, fill: color, opacity });
        } else if shape_type == 1 {
            // Hexagon.
            let cx = rng.range_i64(0, wd);
            let cy = rng.range_i64(0, hd);
            let size = rng.range_or_lo(wd * 3 / 100, wd * 15 / 100);
            let mut points: Vec<Pt> = Vec::new();
            let mut k: i64 = 0;
            while k < 6
                invariant
                    0 <= k <= 6,
                    points@.len() == k,
                    0 <= cx <= 1_000_000,
                    0 <= cy <= 1_000_000,
                    0 <= size <= 150_000,
                    forall|i: int| 0 <= i < points@.len() ==> crate::doc::pt_wf(
                        #[trigger] points@[i],
                    ),
                    polygon_centered(points@, cx as int, cy as int, size as int),
                decreases 6 - k,
            {
                let a = (k * 600) as u32;
                let px = cx + scale_milli(size, cos_milli(a));
                let py = cy + scale_milli(size, sin_milli(a));
                points.push(Pt { x: px, y: py });
                proof {
                    assert(polygon_centered(points@, cx as int, cy as int, size as int));
                }
                k = k + 1;
            }
            out.push(Primitive::Polygon { points, fill: color, opacity });
        } else if shape_type == 2 {
            // Rotated rectangle.
            let x = rng.range_i64(-(wd / 10), wd);
            let y = rng.range_i64(-(hd / 10), hd);
            let rw = rng.range_or_lo(wd * 5 / 100, wd * 30 / 100);
            let rh = rng.range_or_lo(hd * 5 / 100, hd * 30 / 100);
            let angle = rng.range_i64(0, 3600) as u32;
            out.push(Primitive::RotRect { x, y, w: rw, h: rh, angle, fill: color, opacity });
        } else {
            // Circle.
            let cx = rng.range_i64(0, wd);
            let cy = rng.range_i64(0, hd);
            let r = rng.range_or_lo(wd * 2 / 100, wd * 15 / 100);
            out.push(Primitive::Circle { cx, cy, r, fill: color, opacity });
        }
        it = it + 1;
    }
    out
}

} // verus!

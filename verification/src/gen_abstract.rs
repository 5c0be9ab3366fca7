use vstd::prelude::*;
use crate::doc::{PathCmd, Primitive, prim_wf, prim_colors_from};
use crate::fixed::{cos_milli, scale_milli, sin_milli, spec_cos_milli, spec_scale_milli, spec_sin_milli};
use crate::palette::{Palette, pick};
use crate::rng::RandomStream;

verus! {

/// A loop point of a blob: it lies at angle `a` (tenths of a degree)
/// from the center, at a jittered radius between 0.6 and 1.4 times the
/// base radius `r`.
pub open spec fn blob_point(x: int, y: int, cx: int, cy: int, r: int, a: int) -> bool {
    exists|rr: int|
        {
            &&& r * 600 / 1000 <= rr <= r * 1400 / 1000
            &&& x == cx + #[trigger] spec_scale_milli(rr, spec_cos_milli(a))
            &&& y == cy + spec_scale_milli(rr, spec_sin_milli(a))
        }
}

/// The loop structure of a blob outline: the opening point at angle 0,
/// then one Bezier endpoint per point, at evenly spaced angles
/// `i * 3600 / pc` for a point count `pc` of `cmds.len() - 1`.
pub open spec fn blob_shape(cmds: Seq<PathCmd>, cx: int, cy: int, r: int) -> bool {
    let pc = cmds.len() - 1;
    &&& ({
        &&& cmds[0] matches PathCmd::MoveTo { x, y }
        &&& blob_point(x as int, y as int, cx, cy, r, 0)
    })
    &&& forall|i: int|
        1 <= i < cmds.len() - 1 ==> {
            &&& #[trigger] cmds[i] matches PathCmd::CubicTo { x, y, .. }
            &&& blob_point(x as int, y as int, cx, cy, r, (i * 3600 / pc) % 3600)
        }
}

/// One organic blob: a closed Bezier loop over 4 to 7 angularly evenly
/// spaced points with jittered radii, centered on the canvas, with a
/// base radius of 5 to 25 percent of the width, filled with an accent
/// color at opacity 0.15 to 0.6.
pub open spec fn abstract_blob(p: Primitive, accents: Seq<u32>, wd: int, hd: int) -> bool {
    &&& prim_wf(p)
    &&& prim_colors_from(p, accents)
    &&& p matches Primitive::FillPath { cmds, fill, opacity }
    &&& 15 <= p->FillPath_opacity <= 59
    &&& 5 <= p->FillPath_cmds@.len() <= 8
    &&& p->FillPath_cmds@[0] is MoveTo
    &&& p->FillPath_cmds@.last() is Close
    &&& forall|i: int| 1 <= i < p->FillPath_cmds@.len() - 1 ==> #[trigger] p->FillPath_cmds@[i]
        is CubicTo
    &&& exists|cx: int, cy: int, r: int|
        {
            &&& 0 <= cx < wd && 0 <= cy < hd
            &&& wd * 5 / 100 <= r <= wd * 25 / 100
            &&& #[trigger] blob_shape(p->FillPath_cmds@, cx, cy, r)
        }
}

/// The abstract generator's guarantee: 6 to 13 blobs.
pub open spec fn abstract_output(ps: Seq<Primitive>, accents: Seq<u32>, w: u32, h: u32) -> bool {
    &&& 6 <= ps.len() <= 13
    &&& forall|i: int|
        0 <= i < ps.len() ==> abstract_blob(
            #[trigger] ps[i],
            accents,
            (w as int) * 10,
            (h as int) * 10,
        )
}

/// Soft organic blobs: closed Bezier loops with jittered radii.
pub fn gen_abstract(rng: &mut RandomStream, pal: &Palette, w: u32, h: u32) -> (out: Vec<Primitive>)
    requires
        1 <= w <= crate::MAX_DIM,
        1 <= h <= crate::MAX_DIM,
        pal.accents@.len() >= 1,
    ensures
        abstract_output(out@, pal.accents@, w, h),
{
    let wd: i64 = (w as i64) * 10;
    let hd: i64 = (h as i64) * 10;
    let count = rng.range_i64(6, 14);
    let mut out: Vec<Primitive> = Vec::new();
    let mut it: i64 = 0;
    while it < count
        invariant
            6 <= count <= 13,
            0 <= it <= count,
            out@.len() == it,
            pal.accents@.len() >= 1,
            10 <= wd <= 1_000_000,
            10 <= hd <= 1_000_000,
            forall|i: int| 0 <= i < out@.len() ==> abstract_blob(#[trigger] out@[i], pal.accents@, wd as int, hd as int),
        decreases count - it,
    {
        let color = pick(rng, pal);
        let opacity = rng.range_i64(15, 60) as u32;
        let cx = rng.range_i64(0, wd);
        let cy = rng.range_i64(0, hd);
        let r = rng.range_or_lo(wd * 5 / 100, wd * 25 / 100);
        let pc = rng.range_i64(4, 8);

        let mut cmds: Vec<PathCmd> = Vec::new();
        // First loop point.
        let j0 = rng.range_i64(600, 1400);
        proof {
            assert(0 <= r * j0 <= 250_000 * 1400) by (nonlinear_arith)
                requires 0 <= r <= 250_000, 0 <= j0 <= 1400;
            vstd::arithmetic::div_mod::lemma_div_is_ordered(0, r * j0, 1000);
            vstd::arithmetic::div_mod::lemma_div_is_ordered(r * j0, (250_000 * 1400) as int, 1000);
        }
        let rr0: i64 = r * j0 / 1000;
        proof {
            assert(r * 600 <= r * j0 <= r * 1400) by (nonlinear_arith)
                requires 0 <= r, 600 <= j0 <= 1399;
            vstd::arithmetic::div_mod::lemma_div_is_ordered(r * 600, r * j0, 1000);
            vstd::arithmetic::div_mod::lemma_div_is_ordered(r * j0, r * 1400, 1000);
        }
        let p0x = cx + scale_milli(rr0, cos_milli(0));
        let p0y = cy + scale_milli(rr0, sin_milli(0));
        cmds.push(PathCmd::MoveTo { x: p0x, y: p0y });
        proof {
            assert(blob_point(p0x as int, p0y as int, cx as int, cy as int, r as int, 0));
        }
        let mut prev_a: u32 = 0;
        let mut prev_rr: i64 = rr0;
        let mut k: i64 = 1;
        while k < pc
            invariant
                4 <= pc <= 7,
                1 <= k <= pc,
                cmds@.len() == k,
                0 <= cx <= 1_000_000,
                0 <= cy <= 1_000_000,
                0 <= r <= 250_000,
                prev_a < 3600,
                0 <= prev_rr <= 350_000,
                cmds@[0] is MoveTo,
                ({
                    &&& cmds@[0] matches PathCmd::MoveTo { x, y }
                    &&& blob_point(x as int, y as int, cx as int, cy as int, r as int, 0)
                }),
                forall|i: int| 1 <= i < cmds@.len() ==> #[trigger] cmds@[i] is CubicTo,
                forall|i: int| 0 <= i < cmds@.len() ==> crate::doc::cmd_wf(#[trigger] cmds@[i]),
                forall|i: int|
                    1 <= i < cmds@.len() ==> {
                        &&& #[trigger] cmds@[i] matches PathCmd::CubicTo { x, y, .. }
                        &&& blob_point(
                            x as int,
                            y as int,
                            cx as int,
                            cy as int,
                            r as int,
                            (i * 3600 / (pc as int)) % 3600,
                        )
                    },
            decreases pc - k,
        {
            let a: u32 = ((k * 3600 / pc) % 3600) as u32;
            proof {
                vstd::arithmetic::div_mod::lemma_div_is_ordered(0, k * 3600, pc as int);
                assert(0 <= k * 3600 <= 6 * 3600) by (nonlinear_arith)
                    requires 0 <= k <= 6;
                vstd::arithmetic::div_mod::lemma_div_is_ordered(k * 3600, (6 * 3600) as int, pc as int);
                vstd::arithmetic::div_mod::lemma_div_nonincreasing((6 * 3600) as int, pc as int);
                vstd::arithmetic::div_mod::lemma_mod_division_less_than_divisor(
                    k * 3600 / (pc as int),
                    3600,
                );
            }
            let jr = rng.range_i64(600, 1400);
            proof {
                assert(0 <= r * jr <= 250_000 * 1400) by (nonlinear_arith)
                    requires 0 <= r <= 250_000, 0 <= jr <= 1400;
                vstd::arithmetic::div_mod::lemma_div_is_ordered(0, r * jr, 1000);
                vstd::arithmetic::div_mod::lemma_div_is_ordered(r * jr, (250_000 * 1400) as int, 1000);
            }
            proof {
                assert(r * 600 <= r * jr <= r * 1400) by (nonlinear_arith)
                    requires 0 <= r, 600 <= jr <= 1399;
                vstd::arithmetic::div_mod::lemma_div_is_ordered(r * 600, r * jr, 1000);
                vstd::arithmetic::div_mod::lemma_div_is_ordered(r * jr, r * 1400, 1000);
            }
            let rr: i64 = r * jr / 1000;
            let px = cx + scale_milli(rr, cos_milli(a));
            let py = cy + scale_milli(rr, sin_milli(a));
            proof {
                vstd::arithmetic::div_mod::lemma_div_is_ordered(0, prev_rr * 13, 10);
                vstd::arithmetic::div_mod::lemma_div_is_ordered(prev_rr * 13, (350_000 * 13) as int, 10);
                vstd::arithmetic::div_mod::lemma_div_is_ordered(0, rr * 13, 10);
                vstd::arithmetic::div_mod::lemma_div_is_ordered(rr * 13, (350_000 * 13) as int, 10);
            }
            let cp1x = cx + scale_milli(prev_rr * 13 / 10, cos_milli(prev_a));
            let cp1y = cy + scale_milli(prev_rr * 13 / 10, sin_milli(prev_a));
            let cp2x = cx + scale_milli(rr * 13 / 10, cos_milli(a));
            let cp2y = cy + scale_milli(rr * 13 / 10, sin_milli(a));
            cmds.push(PathCmd::CubicTo { x1: cp1x, y1: cp1y, x2: cp2x, y2: cp2y, x: px, y: py });
            proof {
                assert(blob_point(
                    px as int,
                    py as int,
                    cx as int,
                    cy as int,
                    r as int,
                    (k as int * 3600 / (pc as int)) % 3600,
                ));
            }
            prev_a = a;
            prev_rr = rr;
            k = k + 1;
        }
        cmds.push(PathCmd::Close);
        proof {
            assert(blob_shape(cmds@, cx as int, cy as int, r as int));
        }
        out.push(Primitive::FillPath { cmds, fill: color, opacity });
        let ghost pre = out@.len() - 1;
        proof {
            assert(blob_shape(out@[pre as int]->FillPath_cmds@, cx as int, cy as int, r as int));
        }
        it = it + 1;
    }
    out
}

} // verus!

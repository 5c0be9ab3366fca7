use vstd::prelude::*;
use crate::doc::{Primitive, Pt, prim_wf};
use crate::palette::{Palette, pick};
use crate::rng::RandomStream;

verus! {

/// The grid cell size for a canvas `w` pixels wide and the drawn
/// divisor `d` (tenths): the width over `d / 10`, floored, at least one
/// deci-pixel.
pub open spec fn iso_cell(w: u32, d: int) -> int {
    let c = (w as int) * 100 / d;
    if c < 1 {
        1
    } else {
        c
    }
}

/// One block of the isometric grid: a top diamond and a darker left
/// face.  Both faces share the fill color; the left face's opacity is
/// exactly 0.7 times the top's.  The eight vertices are fixed by the
/// block's anchor `(x, y)`, its height, and the cell size.
pub open spec fn iso_pair(top: Primitive, left: Primitive, cell: int, accents: Seq<u32>) -> bool {
    &&& prim_wf(top) && prim_wf(left)
    &&& top matches Primitive::Polygon { points, fill, opacity }
    &&& left matches Primitive::Polygon { points, fill, opacity }
    &&& top->Polygon_points@.len() == 4 && left->Polygon_points@.len() == 4
    &&& accents.contains(top->Polygon_fill)
    &&& left->Polygon_fill == top->Polygon_fill
    &&& 30 <= top->Polygon_opacity <= 69
    &&& left->Polygon_opacity == top->Polygon_opacity * 7 / 10
    &&& exists|x: int, y: int, height: int|
        {
            &&& cell * 3 / 10 <= height <= cell * 12 / 10
            &&& #[trigger] iso_points(
                top->Polygon_points@,
                left->Polygon_points@,
                x,
                y,
                height,
                cell,
            )
        }
}

/// The vertex layout of one block: the top diamond around the raised
/// anchor, and the left face dropping back down by the block height.
pub open spec fn iso_points(
    tp: Seq<Pt>,
    lp: Seq<Pt>,
    x: int,
    y: int,
    height: int,
    cell: int,
) -> bool {
    let half = cell / 2;
    let c3 = cell * 3 / 10;
    &&& tp.len() == 4 && lp.len() == 4
    &&& tp[0] == (Pt { x: x as i64, y: (y - height) as i64 })
    &&& tp[1] == (Pt { x: (x + half) as i64, y: (y - height + c3) as i64 })
    &&& tp[2] == (Pt { x: x as i64, y: (y - height + 2 * c3) as i64 })
    &&& tp[3] == (Pt { x: (x - half) as i64, y: (y - height + c3) as i64 })
    &&& lp[0] == tp[3]
    &&& lp[1] == tp[2]
    &&& lp[2] == (Pt { x: x as i64, y: (y + 2 * c3) as i64 })
    &&& lp[3] == (Pt { x: (x - half) as i64, y: (y + c3) as i64 })
}

/// A whole isometric layer over the cell size `cell`: faces come in
/// top/left pairs.
pub open spec fn iso_layer(ps: Seq<Primitive>, accents: Seq<u32>, cell: int) -> bool {
    &&& ps.len() % 2 == 0
    &&& forall|i: int|
        0 <= i < ps.len() && i % 2 == 0 ==> iso_pair(#[trigger] ps[i], ps[i + 1], cell, accents)
}

/// The isometric generator's guarantee: every primitive belongs to a
/// top/left block pair, all sharing one grid cell size derived from a
/// divisor drawn between 8 and 14.
pub open spec fn isometric_output(ps: Seq<Primitive>, accents: Seq<u32>, w: u32) -> bool {
    exists|d: int| 80 <= d <= 139 && #[trigger] iso_layer(ps, accents, iso_cell(w, d))
}

fn quad(p0: Pt, p1: Pt, p2: Pt, p3: Pt, fill: u32, opacity: u32) -> (r: Primitive)
    requires
        crate::doc::pt_wf(p0),
        crate::doc::pt_wf(p1),
        crate::doc::pt_wf(p2),
        crate::doc::pt_wf(p3),
        opacity <= 70,
    ensures
        r matches Primitive::Polygon { points, fill: f, opacity: o },
        r->Polygon_points@ == seq![p0, p1, p2, p3],
        r->Polygon_fill == fill,
        r->Polygon_opacity == opacity,
        prim_wf(r),
{
    let mut points: Vec<Pt> = Vec::new();
    points.push(p0);
    points.push(p1);
    points.push(p2);
    points.push(p3);
    proof {
        assert(points@ =~= seq![p0, p1, p2, p3]);
    }
    Primitive::Polygon { points, fill, opacity }
}

/// A staggered grid of pseudo-3D blocks: each kept cell emits a top
/// diamond and a darker left face.
pub fn gen_isometric(rng: &mut RandomStream, pal: &Palette, w: u32, h: u32) -> (out: Vec<Primitive>)
    requires
        1 <= w <= crate::MAX_DIM,
        1 <= h <= crate::MAX_DIM,
        pal.accents@.len() >= 1,
    ensures
        isometric_output(out@, pal.accents@, w),
{
    let wd: i64 = (w as i64) * 10;
    let hd: i64 = (h as i64) * 10;
    let celldiv = rng.range_i64(80, 140);
    let cell: i64 = {
        let c = wd * 10 / celldiv;
        if c < 1 {
            1
        } else {
            c
        }
    };
    proof {
        assert(wd * 10 == (w as int) * 100);
        assert(cell == iso_cell(w, celldiv as int));
        assert(0 <= wd * 10 <= 10_000_000);
        vstd::arithmetic::div_mod::lemma_div_is_ordered(0, wd * 10, celldiv as int);
        vstd::arithmetic::div_mod::lemma_div_is_ordered(wd * 10, 10_000_000 as int, celldiv as int);
        vstd::arithmetic::div_mod::lemma_div_nonincreasing(10_000_000, celldiv as int);
    }
    let c6: i64 = {
        let c = cell * 6 / 10;
        if c < 1 {
            1
        } else {
            c
        }
    };
    proof {
        vstd::arithmetic::div_mod::lemma_div_is_ordered(0, cell * 6, 10);
        vstd::arithmetic::div_mod::lemma_div_is_ordered(cell * 6, (10_000_000 * 6) as int, 10);
    }
    let cols: i64 = wd / cell + 2;
    let rows: i64 = hd / c6 + 2;
    proof {
        vstd::arithmetic::div_mod::lemma_div_is_ordered(0, wd as int, cell as int);
        vstd::arithmetic::div_mod::lemma_div_nonincreasing(wd as int, cell as int);
        vstd::arithmetic::div_mod::lemma_div_is_ordered(0, hd as int, c6 as int);
        vstd::arithmetic::div_mod::lemma_div_nonincreasing(hd as int, c6 as int);
    }
    let mut out: Vec<Primitive> = Vec::new();
    let mut r2: i64 = 0;
    while r2 < rows + 1
        invariant
            0 <= r2 <= rows + 1,
            2 <= rows <= 1_000_002,
            2 <= cols <= 1_000_002,
            1 <= cell <= 10_000_000,
            1 <= c6 <= 6_000_000,
            pal.accents@.len() >= 1,
            out@.len() % 2 == 0,
            forall|i: int|
                0 <= i < out@.len() && i % 2 == 0 ==> iso_pair(
                    #[trigger] out@[i],
                    out@[i + 1],
                    cell as int,
                    pal.accents@,
                ),
        decreases rows + 1 - r2,
    {
        let mut c2: i64 = 0;
        while c2 < cols + 1
            invariant
                0 <= c2 <= cols + 1,
                0 <= r2 <= rows,
                2 <= rows <= 1_000_002,
                2 <= cols <= 1_000_002,
                1 <= cell <= 10_000_000,
                1 <= c6 <= 6_000_000,
                pal.accents@.len() >= 1,
                out@.len() % 2 == 0,
                forall|i: int|
                    0 <= i < out@.len() && i % 2 == 0 ==> iso_pair(
                        #[trigger] out@[i],
                        out@[i + 1],
                        cell as int,
                        pal.accents@,
                    ),
            decreases cols + 1 - c2,
        {
            // Spec-mandated 60% skip probability per grid cell.
            if rng.below_u64(1000) >= 600 {
                proof {
                    assert(0 <= c2 * cell <= 1_000_003 * 10_000_000) by (nonlinear_arith)
                        requires 0 <= c2 <= 1_000_003, 1 <= cell <= 10_000_000;
                    assert(0 <= r2 * c6 <= 1_000_003 * 6_000_000) by (nonlinear_arith)
                        requires 0 <= r2 <= 1_000_003, 1 <= c6 <= 6_000_000;
                    assert(0 <= cell * 3 <= 30_000_000);
                    vstd::arithmetic::div_mod::lemma_div_is_ordered(0, cell * 3, 10);
                    vstd::arithmetic::div_mod::lemma_div_is_ordered(cell * 3, 30_000_000 as int, 10);
                    vstd::arithmetic::div_mod::lemma_div_is_ordered(0, cell as int, 2);
                    vstd::arithmetic::div_mod::lemma_div_nonincreasing(cell as int, 2);
                    assert(0 <= cell * 12 <= 120_000_000);
                    vstd::arithmetic::div_mod::lemma_div_is_ordered(0, cell * 12, 10);
                    vstd::arithmetic::div_mod::lemma_div_is_ordered(cell * 12, 120_000_000 as int, 10);
                }
                let x: i64 = c2 * cell - cell + (if r2 % 2 == 1 {
                    0
                } else {
                    cell / 2
                });
                let y: i64 = r2 * c6 - c6;
                let height = rng.range_or_lo(cell * 3 / 10, cell * 12 / 10);
                let color = pick(rng, pal);
                let opacity = rng.range_i64(30, 70) as u32;
                let c3: i64 = cell * 3 / 10;
                let half: i64 = cell / 2;
                let top = quad(
                    Pt { x, y: y - height },
                    Pt { x: x + half, y: y - height + c3 },
                    Pt { x, y: y - height + 2 * c3 },
                    Pt { x: x - half, y: y - height + c3 },
                    color,
                    opacity,
                );
                let left = quad(
                    Pt { x: x - half, y: y - height + c3 },
                    Pt { x, y: y - height + 2 * c3 },
                    Pt { x, y: y + 2 * c3 },
                    Pt { x: x - half, y: y + c3 },
                    color,
                    opacity * 7 / 10,
                );
                let ghost n = out@.len() as int;
                out.push(top);
                out.push(left);
                proof {
                    assert(iso_points(
                        out@[n]->Polygon_points@,
                        out@[n + 1]->Polygon_points@,
                        x as int,
                        y as int,
                        height as int,
                        cell as int,
                    ));
                    assert(iso_pair(out@[n], out@[n + 1], cell as int, pal.accents@));
                    assert forall|i: int|
                        0 <= i < out@.len() && i % 2 == 0 implies iso_pair(
                        #[trigger] out@[i],
                        out@[i + 1],
                        cell as int,
                        pal.accents@,
                    ) by {
                        if i < n {
                            assert(iso_pair(out@[i], out@[i + 1], cell as int, pal.accents@));
                        }
                    }
                }
            }
            c2 = c2 + 1;
        }
        r2 = r2 + 1;
    }
    proof {
        assert(iso_layer(out@, pal.accents@, iso_cell(w, celldiv as int)));
    }
    out
}

} // verus!

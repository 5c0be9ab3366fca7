use vstd::prelude::*;
use crate::doc::{PathCmd, Primitive, prim_wf, prim_colors_from};
use crate::palette::{Palette, pick};
use crate::rng::RandomStream;

verus! {

/// Whether every coordinate of a path command lies in the canvas box
/// `[0, wd] x [0, hd]` (deci-pixels).
pub open spec fn cmd_in_canvas(c: PathCmd, wd: int, hd: int) -> bool {
    match c {
        PathCmd::MoveTo { x, y } => 0 <= x <= wd && 0 <= y <= hd,
        PathCmd::LineTo { x, y } => 0 <= x <= wd && 0 <= y <= hd,
        PathCmd::CubicTo { x1, y1, x2, y2, x, y } => {
            &&& 0 <= x1 <= wd && 0 <= y1 <= hd
            &&& 0 <= x2 <= wd && 0 <= y2 <= hd
            &&& 0 <= x <= wd && 0 <= y <= hd
        },
        PathCmd::Close => true,
    }
}

/// One curve of the lineart layer: a stroked cubic-Bezier chain with
/// round caps, 3 to 7 nodes spanning the canvas, stroke width 1 to 4
/// pixels, opacity between 0.3 and 0.8.
pub open spec fn lineart_curve(p: Primitive, accents: Seq<u32>, wd: int, hd: int) -> bool {
    &&& prim_wf(p)
    &&& prim_colors_from(p, accents)
    &&& match p {
        Primitive::StrokePath { cmds, width, opacity, round_cap, .. } => {
            &&& round_cap
            &&& 10 <= width <= 39
            &&& 30 <= opacity <= 79
            &&& 3 <= cmds@.len() <= 7
            &&& cmds@[0] is MoveTo
            &&& forall|i: int| 1 <= i < cmds@.len() ==> #[trigger] cmds@[i] is CubicTo
            &&& forall|i: int| 0 <= i < cmds@.len() ==> cmd_in_canvas(#[trigger] cmds@[i], wd, hd)
        },
        _ => false,
    }
}

/// The lineart generator's guarantee: 5 to 11 such curves.
pub open spec fn lineart_output(ps: Seq<Primitive>, accents: Seq<u32>, w: u32, h: u32) -> bool {
    &&& 5 <= ps.len() <= 11
    &&& forall|i: int|
        0 <= i < ps.len() ==> lineart_curve(
            #[trigger] ps[i],
            accents,
            (w as int) * 10,
            (h as int) * 10,
        )
}

/// Sweeping stroked Bezier chains spanning the whole canvas.
pub fn gen_lineart(rng: &mut RandomStream, pal: &Palette, w: u32, h: u32) -> (out: Vec<Primitive>)
    requires
        1 <= w <= crate::MAX_DIM,
        1 <= h <= crate::MAX_DIM,
        pal.accents@.len() >= 1,
    ensures
        lineart_output(out@, pal.accents@, w, h),
{
    let wd: i64 = (w as i64) * 10;
    let hd: i64 = (h as i64) * 10;
    let count = rng.range_i64(5, 12);
    let mut out: Vec<Primitive> = Vec::new();
    let mut it: i64 = 0;
    while it < count
        invariant
            5 <= count <= 11,
            0 <= it <= count,
            out@.len() == it,
            pal.accents@.len() >= 1,
            10 <= wd <= 1_000_000,
            10 <= hd <= 1_000_000,
            forall|i: int| 0 <= i < out@.len() ==> lineart_curve(#[trigger] out@[i], pal.accents@, wd as int, hd as int),
        decreases count - it,
    {
        let color = pick(rng, pal);
        let opacity = rng.range_i64(30, 80) as u32;
        let stroke_w = rng.range_i64(10, 40);
        let nodes = rng.range_i64(3, 8);
        let mut cmds: Vec<PathCmd> = Vec::new();
        let x0 = rng.range_i64(0, wd);
        let y0 = rng.range_i64(0, hd);
        cmds.push(PathCmd::MoveTo { x: x0, y: y0 });
        let mut k: i64 = 1;
        while k < nodes
            invariant
                3 <= nodes <= 7,
                1 <= k <= nodes,
                cmds@.len() == k,
                10 <= wd <= 1_000_000,
                10 <= hd <= 1_000_000,
                cmds@[0] is MoveTo,
                forall|i: int| 0 <= i < cmds@.len() ==> crate::doc::cmd_wf(#[trigger] cmds@[i]),
                forall|i: int| 1 <= i < cmds@.len() ==> #[trigger] cmds@[i] is CubicTo,
                forall|i: int| 0 <= i < cmds@.len() ==> cmd_in_canvas(
                    #[trigger] cmds@[i],
                    wd as int,
                    hd as int,
                ),
            decreases nodes - k,
        {
            let x1 = rng.range_i64(0, wd);
            let y1 = rng.range_i64(0, hd);
            let x2 = rng.range_i64(0, wd);
            let y2 = rng.range_i64(0, hd);
            let x = rng.range_i64(0, wd);
            let y = rng.range_i64(0, hd);
            cmds.push(PathCmd::CubicTo { x1, y1, x2, y2, x, y });
            k = k + 1;
        }
        out.push(
            Primitive::StrokePath {
                cmds,
                stroke: color,
                width: stroke_w,
                opacity,
                round_cap: true,
            },
        );
        it = it + 1;
    }
    out
}

} // verus!

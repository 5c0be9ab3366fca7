use vstd::prelude::*;
use crate::doc::{Gradient, Primitive, Stop, prim_wf, gradient_colors_from};
use crate::fixed::{cos_milli, diagonal, scale_milli, sin_milli};
use crate::palette::{Palette, pick};
use crate::rng::RandomStream;

verus! {

/// The offset of stop `j` among `k` evenly spaced stops, as a percentage.
pub open spec fn stop_offset(j: int, k: int) -> int {
    if k <= 1 {
        0
    } else {
        j * 100 / (k - 1)
    }
}

/// The endpoints of the main gradient axis for the angle `a` (tenths of
/// a degree): the segment through the box center at that angle, in
/// percentage coordinates.
pub open spec fn gradient_axis(x1: u32, y1: u32, x2: u32, y2: u32, a: int) -> bool {
    &&& x1 == (50000 - 50 * crate::fixed::spec_cos_milli(a)) / 1000
    &&& y1 == (50000 - 50 * crate::fixed::spec_sin_milli(a)) / 1000
    &&& x2 == (50000 + 50 * crate::fixed::spec_cos_milli(a)) / 1000
    &&& y2 == (50000 + 50 * crate::fixed::spec_sin_milli(a)) / 1000
}

/// The main background gradient: its axis runs at an angle between 15
/// and 165 degrees, with one stop per accent in palette order (at most
/// five), at evenly spaced offsets, fully opaque.
pub open spec fn main_gradient_ok(g: Gradient, accents: Seq<u32>) -> bool {
    &&& g matches Gradient::Linear { x1, y1, x2, y2, stops }
    &&& g->Linear_x1 <= 100 && g->Linear_y1 <= 100 && g->Linear_x2 <= 100 && g->Linear_y2 <= 100
    &&& exists|a: int|
        150 <= a <= 1649 && #[trigger] gradient_axis(
            g->Linear_x1,
            g->Linear_y1,
            g->Linear_x2,
            g->Linear_y2,
            a,
        )
    &&& {
        let stops = g->Linear_stops;
        let k = if accents.len() < 5 { accents.len() as int } else { 5 };
        &&& stops@.len() == k
        &&& forall|j: int| 0 <= j < k ==> (#[trigger] stops@[j]).color == accents[j]
        &&& forall|j: int| 0 <= j < k ==> (#[trigger] stops@[j]).opacity == 100
        &&& forall|j: int| 0 <= j < k ==> (#[trigger] stops@[j]).offset == stop_offset(j, k)
    }
}

/// The gradient layer split: one gradient rectangle, then `no` radial
/// glow ellipses, then `nb` diagonal accent bands at opacity 0.15.
pub open spec fn gradient_split(ps: Seq<Primitive>, accents: Seq<u32>, no: int, nb: int) -> bool {
    &&& 2 <= no <= 4
    &&& 2 <= nb <= 3
    &&& ps.len() == 1 + no + nb
    &&& ps[0] matches Primitive::GradRect { grad, opacity, .. }
    &&& main_gradient_ok(ps[0]->GradRect_grad, accents)
    &&& ps[0]->GradRect_opacity == 70
    &&& prim_wf(ps[0])
    &&& forall|i: int| 1 <= i < 1 + no ==> {
        &&& #[trigger] ps[i] matches Primitive::GradEllipse { grad, .. }
        &&& ps[i]->GradEllipse_grad is Radial
        &&& gradient_colors_from(ps[i]->GradEllipse_grad, accents)
        &&& 15 <= ps[i]->GradEllipse_grad->Radial_cx <= 84
        &&& 15 <= ps[i]->GradEllipse_grad->Radial_cy <= 84
        &&& ps[i]->GradEllipse_grad->Radial_op_in == 60
        &&& ps[i]->GradEllipse_grad->Radial_op_out == 0
        &&& prim_wf(ps[i])
    }
    &&& forall|i: int| 1 + no <= i < ps.len() ==> {
        &&& #[trigger] ps[i] matches Primitive::Line { stroke, opacity, .. }
        &&& accents.contains(ps[i]->Line_stroke)
        &&& ps[i]->Line_opacity == 15
        &&& prim_wf(ps[i])
    }
}

/// The gradient generator's guarantee: a full-canvas rectangle carrying
/// the main gradient, then 2 to 4 radial glow ellipses, then 2 to 3
/// diagonal accent bands.
pub open spec fn gradient_output(ps: Seq<Primitive>, accents: Seq<u32>) -> bool {
    exists|no: int, nb: int| #[trigger] gradient_split(ps, accents, no, nb)
}

/// A background linear gradient over the palette, radial glows, and
/// translucent diagonal bands.
pub fn gen_gradient(rng: &mut RandomStream, pal: &Palette, w: u32, h: u32) -> (out: Vec<Primitive>)
    requires
        1 <= w <= crate::MAX_DIM,
        1 <= h <= crate::MAX_DIM,
        pal.accents@.len() >= 1,
    ensures
        gradient_output(out@, pal.accents@),
{
    let wd: i64 = (w as i64) * 10;
    let hd: i64 = (h as i64) * 10;
    let mut out: Vec<Primitive> = Vec::new();

    // Main background gradient, at an angle between 15 and 165 degrees.
    let angle = rng.range_i64(150, 1650) as u32;
    let c = cos_milli(angle);
    let s = sin_milli(angle);
    let x1: u32 = ((50_000 - 50 * c) / 1000) as u32;
    let y1: u32 = ((50_000 - 50 * s) / 1000) as u32;
    let x2: u32 = ((50_000 + 50 * c) / 1000) as u32;
    let y2: u32 = ((50_000 + 50 * s) / 1000) as u32;
    let k: usize = if pal.accents.len() < 5 {
        pal.accents.len()
    } else {
        5
    };
    let mut stops: Vec<Stop> = Vec::new();
    let mut j: usize = 0;
    while j < k
        invariant
            j <= k,
            1 <= k <= 5,
            k <= pal.accents@.len(),
            stops@.len() == j,
            forall|i: int| 0 <= i < j ==> (#[trigger] stops@[i]).color == pal.accents@[i],
            forall|i: int| 0 <= i < j ==> (#[trigger] stops@[i]).opacity == 100,
            forall|i: int| 0 <= i < j ==> (#[trigger] stops@[i]).offset == stop_offset(
                i,
                k as int,
            ),
        decreases k - j,
    {
        let offset: u32 = if k <= 1 {
            0
        } else {
            ((j * 100) / (k - 1)) as u32
        };
        stops.push(Stop { offset, color: pal.accents[j], opacity: 100 });
        j = j + 1;
    }
    let grad = Gradient::Linear { x1, y1, x2, y2, stops };
    out.push(Primitive::GradRect { w: wd, h: hd, grad, opacity: 70 });
    proof {
        assert(gradient_axis(
            out@[0]->GradRect_grad->Linear_x1,
            out@[0]->GradRect_grad->Linear_y1,
            out@[0]->GradRect_grad->Linear_x2,
            out@[0]->GradRect_grad->Linear_y2,
            angle as int,
        ));
    }

    // Radial glow orbs.
    let orb_count = rng.range_i64(2, 5);
    let mut i: i64 = 0;
    while i < orb_count
        invariant
            2 <= orb_count <= 4,
            0 <= i <= orb_count,
            out@.len() == 1 + i,
            pal.accents@.len() >= 1,
            10 <= wd <= 1_000_000,
            10 <= hd <= 1_000_000,
            out@[0] matches Primitive::GradRect { grad, opacity, .. },
            main_gradient_ok(out@[0]->GradRect_grad, pal.accents@),
            out@[0]->GradRect_opacity == 70,
            prim_wf(out@[0]),
            forall|t: int| 1 <= t < out@.len() ==> {
                &&& #[trigger] out@[t] matches Primitive::GradEllipse { grad, .. }
                &&& out@[t]->GradEllipse_grad is Radial
                &&& gradient_colors_from(out@[t]->GradEllipse_grad, pal.accents@)
                &&& 15 <= out@[t]->GradEllipse_grad->Radial_cx <= 84
                &&& 15 <= out@[t]->GradEllipse_grad->Radial_cy <= 84
                &&& out@[t]->GradEllipse_grad->Radial_op_in == 60
                &&& out@[t]->GradEllipse_grad->Radial_op_out == 0
                &&& prim_wf(out@[t])
            },
        decreases orb_count - i,
    {
        let color = pick(rng, pal);
        let cx_pct = rng.range_i64(15, 85);
        let cy_pct = rng.range_i64(15, 85);
        let g = Gradient::Radial {
            cx: cx_pct as u32,
            cy: cy_pct as u32,
            r: 50,
            color,
            op_in: 60,
            op_out: 0,
        };
        let rx = rng.range_or_lo(wd * 25 / 100, wd * 60 / 100);
        let ry = rng.range_or_lo(hd * 25 / 100, hd * 60 / 100);
        proof {
            assert(0 <= cx_pct * wd <= 85 * 1_000_000) by (nonlinear_arith)
                requires 15 <= cx_pct <= 84, 10 <= wd <= 1_000_000;
            assert(0 <= cy_pct * hd <= 85 * 1_000_000) by (nonlinear_arith)
                requires 15 <= cy_pct <= 84, 10 <= hd <= 1_000_000;
        }
        let cx = cx_pct * wd / 100;
        let cy = cy_pct * hd / 100;
        out.push(Primitive::GradEllipse { cx, cy, rx, ry, grad: g });
        i = i + 1;
    }

    // Diagonal accent bands, perpendicular to the gradient angle.
    let band_count = rng.range_i64(2, 4);
    let perp = ((angle + 900) % 3600) as u32;
    let pc = cos_milli(perp);
    let psn = sin_milli(perp);
    let len = {
        let d = diagonal(wd, hd);
        d * 6 / 10
    };
    let ghost no = orb_count as int;
    let mut b: i64 = 0;
    while b < band_count
        invariant
            2 <= band_count <= 3,
            0 <= b <= band_count,
            out@.len() == 1 + no + b,
            2 <= no <= 4,
            pal.accents@.len() >= 1,
            10 <= wd <= 1_000_000,
            10 <= hd <= 1_000_000,
            -1000 <= pc <= 1000,
            -1000 <= psn <= 1000,
            0 <= len <= 0x200_0000,
            out@[0] matches Primitive::GradRect { grad, opacity, .. },
            main_gradient_ok(out@[0]->GradRect_grad, pal.accents@),
            out@[0]->GradRect_opacity == 70,
            prim_wf(out@[0]),
            forall|t: int| 1 <= t < 1 + no ==> {
                &&& #[trigger] out@[t] matches Primitive::GradEllipse { grad, .. }
                &&& out@[t]->GradEllipse_grad is Radial
                &&& gradient_colors_from(out@[t]->GradEllipse_grad, pal.accents@)
                &&& 15 <= out@[t]->GradEllipse_grad->Radial_cx <= 84
                &&& 15 <= out@[t]->GradEllipse_grad->Radial_cy <= 84
                &&& out@[t]->GradEllipse_grad->Radial_op_in == 60
                &&& out@[t]->GradEllipse_grad->Radial_op_out == 0
                &&& prim_wf(out@[t])
            },
            forall|t: int| 1 + no <= t < out@.len() ==> {
                &&& #[trigger] out@[t] matches Primitive::Line { stroke, opacity, .. }
                &&& pal.accents@.contains(out@[t]->Line_stroke)
                &&& out@[t]->Line_opacity == 15
                &&& prim_wf(out@[t])
            },
        decreases band_count - b,
    {
        proof {
            assert(0 <= wd * (b + 1) <= wd * 4) by (nonlinear_arith)
                requires 10 <= wd <= 1_000_000, 0 <= b <= 3;
            assert(0 <= hd * (b + 1) <= hd * 4) by (nonlinear_arith)
                requires 10 <= hd <= 1_000_000, 0 <= b <= 3;
            vstd::arithmetic::div_mod::lemma_div_is_ordered(0, wd * (b + 1), band_count + 1);
            vstd::arithmetic::div_mod::lemma_div_is_ordered(wd * (b + 1), wd * 4, band_count + 1);
            vstd::arithmetic::div_mod::lemma_div_is_ordered(0, hd * (b + 1), band_count + 1);
            vstd::arithmetic::div_mod::lemma_div_is_ordered(hd * (b + 1), hd * 4, band_count + 1);
            vstd::arithmetic::div_mod::lemma_div_nonincreasing(wd * 4, band_count + 1);
            vstd::arithmetic::div_mod::lemma_div_nonincreasing(hd * 4, band_count + 1);
        }
        let bx = wd * (b + 1) / (band_count + 1);
        let by = hd * (b + 1) / (band_count + 1);
        let dx = scale_milli(len, pc);
        let dy = scale_milli(len, psn);
        let color = pick(rng, pal);
        let sw = rng.range_or_lo(wd * 2 / 100, wd * 6 / 100);
        out.push(
            Primitive::Line {
                x1: bx - dx,
                y1: by - dy,
                x2: bx + dx,
                y2: by + dy,
                stroke: color,
                width: sw,
                opacity: 15,
            },
        );
        b = b + 1;
    }
    proof {
        assert(gradient_split(out@, pal.accents@, no, band_count as int));
    }
    out
}

} // verus!

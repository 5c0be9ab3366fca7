use vstd::prelude::*;
use crate::doc::{Gradient, PathCmd, Primitive, Stop, prim_wf};
use crate::fixed::{cos_milli, diagonal, scale_milli, sin_milli, spec_cos_milli, spec_isqrt, spec_scale_milli, spec_sin_milli};
use crate::palette::Palette;
use crate::rng::RandomStream;
use vstd::arithmetic::div_mod::{lemma_add_mod_noop, lemma_mod_self_0, lemma_small_mod};

verus! {

/// The outline of ribbon `i` of `rc`, from the drawn quantities: the
/// ribbon width `rw`, the flow jitter `jit` around the shared flow
/// direction `bflow`, the two bend offsets and the four taper
/// half-widths.  The ribbon runs `reach` out from a center displaced
/// from the canvas middle along the perpendicular, with Bezier bends and
/// a tapered width.
pub open spec fn ribbon_geometry(
    cmds: Seq<PathCmd>,
    wd: int,
    hd: int,
    reach: int,
    bflow: int,
    rc: int,
    i: int,
    rw: int,
    jit: int,
    b1: int,
    b2: int,
    t1: int,
    t2: int,
    t3: int,
    t4: int,
) -> bool {
    let flow = (bflow + 3600 + jit) % 3600;
    let perp = (flow + 900) % 3600;
    let pc = spec_cos_milli(perp);
    let psn = spec_sin_milli(perp);
    let fc = spec_cos_milli(flow);
    let fs = spec_sin_milli(flow);
    let offset = spec_scale_milli(rw * 3, (i * 2 - rc) * 100);
    let cx = wd / 2 + spec_scale_milli(offset, pc);
    let cy = hd / 2 + spec_scale_milli(offset, psn);
    let rdx = spec_scale_milli(reach, fc);
    let rdy = spec_scale_milli(reach, fs);
    let sx = cx - rdx;
    let sy = cy - rdy;
    let ex = cx + rdx;
    let ey = cy + rdy;
    let cp1x = sx + spec_scale_milli(ex - sx, 330) + spec_scale_milli(b1, pc);
    let cp1y = sy + spec_scale_milli(ey - sy, 330) + spec_scale_milli(b1, psn);
    let cp2x = sx + spec_scale_milli(ex - sx, 660) + spec_scale_milli(b2, pc);
    let cp2y = sy + spec_scale_milli(ey - sy, 660) + spec_scale_milli(b2, psn);
    cmds == seq![
        PathCmd::MoveTo {
            x: (sx + spec_scale_milli(t1, pc)) as i64,
            y: (sy + spec_scale_milli(t1, psn)) as i64,
        },
        PathCmd::CubicTo {
            x1: (cp1x + spec_scale_milli(t2, pc)) as i64,
            y1: (cp1y + spec_scale_milli(t2, psn)) as i64,
            x2: (cp2x + spec_scale_milli(t3, pc)) as i64,
            y2: (cp2y + spec_scale_milli(t3, psn)) as i64,
            x: (ex + spec_scale_milli(t4, pc)) as i64,
            y: (ey + spec_scale_milli(t4, psn)) as i64,
        },
        PathCmd::LineTo {
            x: (ex - spec_scale_milli(t4, pc)) as i64,
            y: (ey - spec_scale_milli(t4, psn)) as i64,
        },
        PathCmd::CubicTo {
            x1: (cp2x - spec_scale_milli(t3, pc)) as i64,
            y1: (cp2y - spec_scale_milli(t3, psn)) as i64,
            x2: (cp1x - spec_scale_milli(t2, pc)) as i64,
            y2: (cp1y - spec_scale_milli(t2, psn)) as i64,
            x: (sx - spec_scale_milli(t1, pc)) as i64,
            y: (sy - spec_scale_milli(t1, psn)) as i64,
        },
        PathCmd::LineTo {
            x: (sx + spec_scale_milli(t1, pc)) as i64,
            y: (sy + spec_scale_milli(t1, psn)) as i64,
        },
        PathCmd::Close,
    ]
}

/// The drawn ribbon quantities, within their bands, that produce this
/// outline.
pub open spec fn ribbon_drawn(
    cmds: Seq<PathCmd>,
    wd: int,
    hd: int,
    reach: int,
    bflow: int,
    rc: int,
    i: int,
) -> bool {
    exists|rw: int, jit: int, b1: int, b2: int, t1: int, t2: int, t3: int, t4: int|
        {
            &&& wd * 6 / 100 <= rw <= wd * 18 / 100
            &&& -343 <= jit <= 343
            &&& -(wd * 3 / 10) <= b1 <= wd * 3 / 10
            &&& -(wd * 3 / 10) <= b2 <= wd * 3 / 10
            &&& (rw / 2) * 4 / 10 <= t1 <= (rw / 2) * 9 / 10
            &&& (rw / 2) * 8 / 10 <= t2 <= (rw / 2) * 14 / 10
            &&& (rw / 2) * 8 / 10 <= t3 <= (rw / 2) * 14 / 10
            &&& (rw / 2) * 4 / 10 <= t4 <= (rw / 2) * 9 / 10
            &&& #[trigger] ribbon_geometry(
                cmds,
                wd,
                hd,
                reach,
                bflow,
                rc,
                i,
                rw,
                jit,
                b1,
                b2,
                t1,
                t2,
                t3,
                t4,
            )
        }
}

/// One silk ribbon: a closed tapered Bezier quadrilateral filled with a
/// four-stop linear gradient.  Its colors step through a three-color
/// window of the accents opening at `ci`: ribbon `i` fades from window
/// color `i mod 3` into window color `(i + 1) mod 3`, with stop offsets
/// 0/30/70/100 and stop opacities 0.1/0.6/0.6/0.1.
pub open spec fn silk_ribbon(
    p: Primitive,
    accents: Seq<u32>,
    i: int,
    ci: int,
    bflow: int,
    nr: int,
    w: u32,
    h: u32,
) -> bool {
    let n = accents.len() as int;
    let wd = (w as int) * 10;
    let hd = (h as int) * 10;
    &&& prim_wf(p)
    &&& p matches Primitive::GradPath { cmds, grad, opacity }
    &&& 25 <= p->GradPath_opacity <= 54
    &&& p->GradPath_cmds@.len() == 6
    &&& p->GradPath_cmds@[0] is MoveTo
    &&& p->GradPath_cmds@.last() is Close
    &&& ribbon_drawn(
        p->GradPath_cmds@,
        wd,
        hd,
        spec_isqrt(wd * wd + hd * hd) * 6 / 10,
        bflow,
        nr,
        i,
    )
    &&& p->GradPath_grad matches Gradient::Linear { x1, y1, x2, y2, stops }
    &&& p->GradPath_grad->Linear_x1 <= 100 && p->GradPath_grad->Linear_y1 <= 100
    &&& p->GradPath_grad->Linear_x2 <= 100 && p->GradPath_grad->Linear_y2 <= 100
    &&& p->GradPath_grad->Linear_stops@ == seq![
        Stop { offset: 0, color: accents[(ci + i % 3) % n], opacity: 10 },
        Stop { offset: 30, color: accents[(ci + i % 3) % n], opacity: 60 },
        Stop { offset: 70, color: accents[(ci + (i + 1) % 3) % n], opacity: 60 },
        Stop { offset: 100, color: accents[(ci + (i + 1) % 3) % n], opacity: 10 },
    ]
}

/// The global radial glow that tops the ribbons: a centered radial fade
/// of the window's first color, from opacity 0.4 to zero.
pub open spec fn silk_glow(p: Primitive, accents: Seq<u32>, ci: int) -> bool {
    &&& prim_wf(p)
    &&& p matches Primitive::GradEllipse { grad, .. }
    &&& p->GradEllipse_grad == (Gradient::Radial {
        cx: 50,
        cy: 50,
        r: 50,
        color: accents[ci],
        op_in: 40,
        op_out: 0,
    })
}

/// All ribbons share one color window opening at `ci` and one flow
/// direction `bflow` (each ribbon jittered around it); the glow tops
/// them in the window's first color.
pub open spec fn silk_colored(
    ps: Seq<Primitive>,
    accents: Seq<u32>,
    nr: int,
    ci: int,
    bflow: int,
    w: u32,
    h: u32,
) -> bool {
    &&& 0 <= ci < accents.len()
    &&& 0 <= bflow <= 3599
    &&& forall|i: int| 0 <= i < nr ==> silk_ribbon(#[trigger] ps[i], accents, i, ci, bflow, nr, w, h)
    &&& silk_glow(ps[nr], accents, ci)
}

/// The silkflow layer split: `nr` ribbons followed by one radial glow,
/// colored from one three-accent window, flowing one shared direction.
pub open spec fn silk_split(ps: Seq<Primitive>, accents: Seq<u32>, nr: int, w: u32, h: u32) -> bool {
    &&& 6 <= nr <= 9
    &&& ps.len() == nr + 1
    &&& exists|ci: int, bflow: int| #[trigger] silk_colored(ps, accents, nr, ci, bflow, w, h)
}

/// The silkflow generator's guarantee.
pub open spec fn silkflow_output(ps: Seq<Primitive>, accents: Seq<u32>, w: u32, h: u32) -> bool {
    exists|nr: int| #[trigger] silk_split(ps, accents, nr, w, h)
}

/// Clamps a coordinate to a percentage of the span `d`.
fn pct_clamp(v: i64, d: i64) -> (r: u32)
    requires
        1 <= d <= 2_000_000,
        -0x1000_0000_0000 <= v <= 0x1000_0000_0000,
    ensures
        r <= 100,
{
    if v <= 0 {
        0
    } else {
        proof {
            assert(0 <= v * 100) by (nonlinear_arith)
                requires 0 <= v;
            vstd::arithmetic::div_mod::lemma_div_is_ordered(0, v * 100, d as int);
        }
        let q = v * 100 / d;
        if q > 100 {
            100
        } else {
            q as u32
        }
    }
}

/// One taper half-width: the ribbon half-width scaled by a drawn
/// factor in tenths.
fn taper_width(rng: &mut RandomStream, hw: i64, lo: i64, hi: i64) -> (r: i64)
    requires
        0 <= hw <= 90_000,
        0 <= lo < hi <= 15,
    ensures
        0 <= r <= 126_000,
        hw * lo / 10 <= r <= hw * (hi - 1) / 10,
{
    let j = rng.range_i64(lo, hi);
    proof {
        assert(0 <= hw * j <= 90_000 * 14 && hw * lo <= hw * j <= hw * (hi - 1))
            by (nonlinear_arith)
            requires 0 <= hw <= 90_000, 0 <= j <= 14, lo <= j <= hi - 1;
        vstd::arithmetic::div_mod::lemma_div_is_ordered(0, hw * j, 10);
        vstd::arithmetic::div_mod::lemma_div_is_ordered(hw * j, (90_000 * 14) as int, 10);
        vstd::arithmetic::div_mod::lemma_div_is_ordered(hw * lo, hw * j, 10);
        vstd::arithmetic::div_mod::lemma_div_is_ordered(hw * j, hw * (hi - 1), 10);
    }
    hw * j / 10
}

/// The drawn quantities and derived anchor geometry of one ribbon.
struct RibbonFrame {
    rw: i64,
    jit: i64,
    b1: i64,
    b2: i64,
    sx: i64,
    sy: i64,
    ex: i64,
    ey: i64,
    cp1x: i64,
    cp1y: i64,
    cp2x: i64,
    cp2y: i64,
    pc: i64,
    psn: i64,
}

/// The frame fields satisfy the ribbon's drawn bands and equal the
/// anchor formulas of `ribbon_geometry` for the same drawn values.
spec fn ribbon_frame_ok(fr: RibbonFrame, wd: int, hd: int, reach: int, bflow: int, rc: int, i: int) -> bool {
    let flow = (bflow + 3600 + fr.jit as int) % 3600;
    let perp = (flow + 900) % 3600;
    let pc = spec_cos_milli(perp);
    let psn = spec_sin_milli(perp);
    let fc = spec_cos_milli(flow);
    let fs = spec_sin_milli(flow);
    let offset = spec_scale_milli(fr.rw as int * 3, (i * 2 - rc) * 100);
    let cx = wd / 2 + spec_scale_milli(offset, pc);
    let cy = hd / 2 + spec_scale_milli(offset, psn);
    let rdx = spec_scale_milli(reach, fc);
    let rdy = spec_scale_milli(reach, fs);
    &&& wd * 6 / 100 <= fr.rw <= wd * 18 / 100
    &&& -343 <= fr.jit <= 343
    &&& -(wd * 3 / 10) <= fr.b1 <= wd * 3 / 10
    &&& -(wd * 3 / 10) <= fr.b2 <= wd * 3 / 10
    &&& -1000 <= fr.pc <= 1000 && -1000 <= fr.psn <= 1000
    &&& fr.pc == pc && fr.psn == psn
    &&& fr.sx == cx - rdx && fr.sy == cy - rdy
    &&& fr.ex == cx + rdx && fr.ey == cy + rdy
    &&& fr.cp1x == fr.sx + spec_scale_milli(fr.ex as int - fr.sx as int, 330) + spec_scale_milli(
        fr.b1 as int,
        pc,
    )
    &&& fr.cp1y == fr.sy + spec_scale_milli(fr.ey as int - fr.sy as int, 330) + spec_scale_milli(
        fr.b1 as int,
        psn,
    )
    &&& fr.cp2x == fr.sx + spec_scale_milli(fr.ex as int - fr.sx as int, 660) + spec_scale_milli(
        fr.b2 as int,
        pc,
    )
    &&& fr.cp2y == fr.sy + spec_scale_milli(fr.ey as int - fr.sy as int, 660) + spec_scale_milli(
        fr.b2 as int,
        psn,
    )
    &&& -70_000_000 <= fr.sx <= 70_000_000 && -70_000_000 <= fr.sy <= 70_000_000
    &&& -70_000_000 <= fr.ex <= 70_000_000 && -70_000_000 <= fr.ey <= 70_000_000
    &&& -70_000_000 <= fr.cp1x <= 70_000_000 && -70_000_000 <= fr.cp1y <= 70_000_000
    &&& -70_000_000 <= fr.cp2x <= 70_000_000 && -70_000_000 <= fr.cp2y <= 70_000_000
}

/// Draws one ribbon's frame: width, flow jitter, bends, and the anchor
/// points along the jittered flow direction.
#[verifier::rlimit(100)]
fn ribbon_frame(
    rng: &mut RandomStream,
    wd: i64,
    hd: i64,
    reach: i64,
    base_flow: i64,
    ribbon_count: i64,
    i: i64,
) -> (fr: RibbonFrame)
    requires
        10 <= wd <= 1_000_000,
        10 <= hd <= 1_000_000,
        0 <= reach <= 21_000_000,
        0 <= base_flow <= 3599,
        6 <= ribbon_count <= 9,
        0 <= i < ribbon_count,
    ensures
        ribbon_frame_ok(
            fr,
            wd as int,
            hd as int,
            reach as int,
            base_flow as int,
            ribbon_count as int,
            i as int,
        ),
{
    let ribbon_width = rng.range_or_lo(wd * 6 / 100, wd * 18 / 100);
    let jitter = rng.range_i64(-343, 344);
    let flow = ((base_flow + 3600 + jitter) as u64 % 3600) as u32;
    let perp = ((flow + 900) % 3600) as u32;
    let pc = cos_milli(perp);
    let psn = sin_milli(perp);
    let fc = cos_milli(flow);
    let fs = sin_milli(flow);

    let om = i * 2 - ribbon_count;
    let offset = scale_milli(ribbon_width * 3, om * 100);
    let cx = wd / 2 + scale_milli(offset, pc);
    let cy = hd / 2 + scale_milli(offset, psn);

    let rdx = scale_milli(reach, fc);
    let rdy = scale_milli(reach, fs);
    let sx = cx - rdx;
    let sy = cy - rdy;
    let ex = cx + rdx;
    let ey = cy + rdy;

    let bend1 = rng.range_or_lo(-(wd * 3 / 10), wd * 3 / 10);
    let bend2 = rng.range_or_lo(-(wd * 3 / 10), wd * 3 / 10);
    let cp1x = sx + scale_milli(ex - sx, 330) + scale_milli(bend1, pc);
    let cp1y = sy + scale_milli(ey - sy, 330) + scale_milli(bend1, psn);
    let cp2x = sx + scale_milli(ex - sx, 660) + scale_milli(bend2, pc);
    let cp2y = sy + scale_milli(ey - sy, 660) + scale_milli(bend2, psn);

    RibbonFrame {
        rw: ribbon_width,
        jit: jitter,
        b1: bend1,
        b2: bend2,
        sx,
        sy,
        ex,
        ey,
        cp1x,
        cp1y,
        cp2x,
        cp2y,
        pc,
        psn,
    }
}

/// Draws one ribbon outline: a tapered quadrilateral along a jittered
/// flow direction, as a six-command closed path, together with the
/// gradient axis endpoints in percent.
#[verifier::rlimit(100)]
fn ribbon_cmds(
    rng: &mut RandomStream,
    wd: i64,
    hd: i64,
    reach: i64,
    base_flow: i64,
    ribbon_count: i64,
    i: i64,
) -> (r: (Vec<PathCmd>, (u32, u32, u32, u32)))
    requires
        10 <= wd <= 1_000_000,
        10 <= hd <= 1_000_000,
        0 <= reach <= 21_000_000,
        0 <= base_flow <= 3599,
        6 <= ribbon_count <= 9,
        0 <= i < ribbon_count,
    ensures
        r.0@.len() == 6,
        r.0@[0] is MoveTo,
        r.0@.last() is Close,
        forall|t: int| 0 <= t < r.0@.len() ==> crate::doc::cmd_wf(#[trigger] r.0@[t]),
        r.1.0 <= 100 && r.1.1 <= 100 && r.1.2 <= 100 && r.1.3 <= 100,
        ribbon_drawn(
            r.0@,
            wd as int,
            hd as int,
            reach as int,
            base_flow as int,
            ribbon_count as int,
            i as int,
        ),
{
    let fr = ribbon_frame(rng, wd, hd, reach, base_flow, ribbon_count, i);
    let hw = fr.rw / 2;
    let hw_start = taper_width(rng, hw, 4, 10);
    let hw_mid1 = taper_width(rng, hw, 8, 15);
    let hw_mid2 = taper_width(rng, hw, 8, 15);
    let hw_end = taper_width(rng, hw, 4, 10);

    let us_x = fr.sx + scale_milli(hw_start, fr.pc);
    let us_y = fr.sy + scale_milli(hw_start, fr.psn);
    let uc1_x = fr.cp1x + scale_milli(hw_mid1, fr.pc);
    let uc1_y = fr.cp1y + scale_milli(hw_mid1, fr.psn);
    let uc2_x = fr.cp2x + scale_milli(hw_mid2, fr.pc);
    let uc2_y = fr.cp2y + scale_milli(hw_mid2, fr.psn);
    let ue_x = fr.ex + scale_milli(hw_end, fr.pc);
    let ue_y = fr.ey + scale_milli(hw_end, fr.psn);
    let ls_x = fr.sx - scale_milli(hw_start, fr.pc);
    let ls_y = fr.sy - scale_milli(hw_start, fr.psn);
    let lc1_x = fr.cp1x - scale_milli(hw_mid1, fr.pc);
    let lc1_y = fr.cp1y - scale_milli(hw_mid1, fr.psn);
    let lc2_x = fr.cp2x - scale_milli(hw_mid2, fr.pc);
    let lc2_y = fr.cp2y - scale_milli(hw_mid2, fr.psn);
    let le_x = fr.ex - scale_milli(hw_end, fr.pc);
    let le_y = fr.ey - scale_milli(hw_end, fr.psn);

    let mut cmds: Vec<PathCmd> = Vec::new();
    cmds.push(PathCmd::MoveTo { x: us_x, y: us_y });
    cmds.push(PathCmd::CubicTo { x1: uc1_x, y1: uc1_y, x2: uc2_x, y2: uc2_y, x: ue_x, y: ue_y });
    cmds.push(PathCmd::LineTo { x: le_x, y: le_y });
    cmds.push(PathCmd::CubicTo { x1: lc2_x, y1: lc2_y, x2: lc1_x, y2: lc1_y, x: ls_x, y: ls_y });
    cmds.push(PathCmd::LineTo { x: us_x, y: us_y });
    cmds.push(PathCmd::Close);
    proof {
        assert(cmds@ =~= seq![cmds@[0], cmds@[1], cmds@[2], cmds@[3], cmds@[4], cmds@[5]]);
        assert(ribbon_geometry(
            cmds@,
            wd as int,
            hd as int,
            reach as int,
            base_flow as int,
            ribbon_count as int,
            i as int,
            fr.rw as int,
            fr.jit as int,
            fr.b1 as int,
            fr.b2 as int,
            hw_start as int,
            hw_mid1 as int,
            hw_mid2 as int,
            hw_end as int,
        ));
    }

    let gx1 = pct_clamp(fr.sx, wd);
    let gy1 = pct_clamp(fr.sy, hd);
    let gx2 = pct_clamp(fr.ex, wd);
    let gy2 = pct_clamp(fr.ey, hd);
    (cmds, (gx1, gy1, gx2, gy2))
}

/// Flowing gradient ribbons sharing one flow direction, plus one global
/// radial glow.
#[verifier::rlimit(100)]
pub fn gen_silkflow(rng: &mut RandomStream, pal: &Palette, w: u32, h: u32) -> (out: Vec<Primitive>)
    requires
        1 <= w <= crate::MAX_DIM,
        1 <= h <= crate::MAX_DIM,
        pal.accents@.len() >= 1,
    ensures
        silkflow_output(out@, pal.accents@, w, h),
{
    let wd: i64 = (w as i64) * 10;
    let hd: i64 = (h as i64) * 10;
    let n_acc = pal.accents.len();
    let ci = rng.below_usize(n_acc);
    let i1: usize = if ci >= n_acc - 1 {
        ci - (n_acc - 1)
    } else {
        ci + 1
    };
    let i2: usize = if i1 >= n_acc - 1 {
        i1 - (n_acc - 1)
    } else {
        i1 + 1
    };
    let c0 = pal.accents[ci];
    let c1 = pal.accents[i1];
    let c2 = pal.accents[i2];
    proof {
        let n = pal.accents@.len() as int;
        lemma_small_mod(ci as nat, n as nat);
        if ci == n_acc - 1 {
            lemma_mod_self_0(n);
            assert(i1 as int == (ci as int + 1) % n);
        } else {
            lemma_small_mod((ci + 1) as nat, n as nat);
            assert(i1 as int == (ci as int + 1) % n);
        }
        if i1 == n_acc - 1 {
            lemma_mod_self_0(n);
            assert(i2 as int == (i1 as int + 1) % n);
        } else {
            lemma_small_mod((i1 + 1) as nat, n as nat);
            assert(i2 as int == (i1 as int + 1) % n);
        }
        if n == 1 {
            assert(i1 == 0 && i2 == 0 && ci == 0);
            assert((ci as int + 1) % n == 0 && (ci as int + 2) % n == 0);
        } else {
            lemma_small_mod(1nat, n as nat);
            lemma_add_mod_noop(ci as int + 1, 1, n);
            assert(((ci as int + 1) % n + 1int % n) % n == (ci as int + 2) % n);
            let t = (ci as int + 1) % n + 1;
            if t == n {
                lemma_mod_self_0(n);
            } else {
                lemma_small_mod(t as nat, n as nat);
            }
        }
        assert(c0 == pal.accents@[(ci as int + 0) % n]);
        assert(c1 == pal.accents@[(ci as int + 1) % n]);
        assert(c2 == pal.accents@[(ci as int + 2) % n]);
    }

    let ribbon_count = rng.range_i64(6, 10);
    let base_flow = rng.range_i64(0, 3600);
    let d = diagonal(wd, hd);
    proof {
        vstd::arithmetic::div_mod::lemma_div_is_ordered(0, d * 6, 10);
        vstd::arithmetic::div_mod::lemma_div_is_ordered(d * 6, (0x200_0000 * 6) as int, 10);
    }
    let reach = d * 6 / 10;

    let mut out: Vec<Primitive> = Vec::new();
    let mut i: i64 = 0;
    while i < ribbon_count
        invariant
            6 <= ribbon_count <= 9,
            0 <= i <= ribbon_count,
            out@.len() == i,
            pal.accents@.len() >= 1,
            ci < pal.accents@.len(),
            c0 == pal.accents@[(ci as int + 0) % pal.accents@.len() as int],
            c1 == pal.accents@[(ci as int + 1) % pal.accents@.len() as int],
            c2 == pal.accents@[(ci as int + 2) % pal.accents@.len() as int],
            10 <= wd <= 1_000_000,
            10 <= hd <= 1_000_000,
            0 <= base_flow <= 3599,
            0 <= reach <= 21_000_000,
            wd == (w as int) * 10,
            hd == (h as int) * 10,
            reach == spec_isqrt((wd as int) * (wd as int) + (hd as int) * (hd as int)) * 6 / 10,
            forall|t: int| 0 <= t < out@.len() ==> silk_ribbon(
                #[trigger] out@[t],
                pal.accents@,
                t,
                ci as int,
                base_flow as int,
                ribbon_count as int,
                w,
                h,
            ),
        decreases ribbon_count - i,
    {
        let m3 = (i % 3) as u64;
        let color = if m3 == 0 {
            c0
        } else if m3 == 1 {
            c1
        } else {
            c2
        };
        let m3n = ((i + 1) % 3) as u64;
        let next_color = if m3n == 0 {
            c0
        } else if m3n == 1 {
            c1
        } else {
            c2
        };
        let (cmds, pct) = ribbon_cmds(rng, wd, hd, reach, base_flow, ribbon_count, i);
        let (gx1, gy1, gx2, gy2) = pct;
        let mut stops: Vec<Stop> = Vec::new();
        stops.push(Stop { offset: 0, color, opacity: 10 });
        stops.push(Stop { offset: 30, color, opacity: 60 });
        stops.push(Stop { offset: 70, color: next_color, opacity: 60 });
        stops.push(Stop { offset: 100, color: next_color, opacity: 10 });
        proof {
            let n = pal.accents@.len() as int;
            assert(m3 as int == (i as int) % 3);
            assert(m3n as int == (i as int + 1) % 3);
            assert(color == pal.accents@[(ci as int + (i as int) % 3) % n]);
            assert(next_color == pal.accents@[(ci as int + (i as int + 1) % 3) % n]);
            assert(stops@ =~= seq![
                Stop { offset: 0, color: pal.accents@[(ci as int + (i as int) % 3) % n], opacity: 10 },
                Stop { offset: 30, color: pal.accents@[(ci as int + (i as int) % 3) % n], opacity: 60 },
                Stop {
                    offset: 70,
                    color: pal.accents@[(ci as int + (i as int + 1) % 3) % n],
                    opacity: 60,
                },
                Stop {
                    offset: 100,
                    color: pal.accents@[(ci as int + (i as int + 1) % 3) % n],
                    opacity: 10,
                },
            ]);
        }
        let grad = Gradient::Linear { x1: gx1, y1: gy1, x2: gx2, y2: gy2, stops };
        let opacity = rng.range_i64(25, 55) as u32;
        let ghost pre = out@.len() as int;
        out.push(Primitive::GradPath { cmds, grad, opacity });
        proof {
            assert(ribbon_drawn(
                out@[pre]->GradPath_cmds@,
                wd as int,
                hd as int,
                reach as int,
                base_flow as int,
                ribbon_count as int,
                pre,
            ));
            assert(silk_ribbon(
                out@[pre],
                pal.accents@,
                pre,
                ci as int,
                base_flow as int,
                ribbon_count as int,
                w,
                h,
            ));
        }
        i = i + 1;
    }

    let glow = Gradient::Radial { cx: 50, cy: 50, r: 50, color: c0, op_in: 40, op_out: 0 };
    let ghost nr = ribbon_count as int;
    out.push(
        Primitive::GradEllipse { cx: wd / 2, cy: hd / 2, rx: wd / 2, ry: hd / 2, grad: glow },
    );
    proof {
        let n = pal.accents@.len() as int;
        lemma_small_mod(ci as nat, n as nat);
        assert(c0 == pal.accents@[ci as int]);
        assert(silk_glow(out@[nr], pal.accents@, ci as int));
        assert(silk_colored(out@, pal.accents@, nr, ci as int, base_flow as int, w, h));
        assert(silk_split(out@, pal.accents@, nr, w, h));
    }
    out
}

} // verus!

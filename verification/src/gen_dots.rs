use vstd::prelude::*;
use crate::doc::{Primitive, prim_wf};
use crate::fixed::{diagonal, isqrt, spec_isqrt};
use crate::palette::{Palette, pick};
use crate::rng::RandomStream;
use vstd::arithmetic::div_mod::{lemma_div_is_ordered, lemma_div_multiples_vanish};

verus! {

/// The rounded distance from a dot center to the focal point.
pub open spec fn dot_dist(cx: int, cy: int, fx: int, fy: int) -> int {
    let dx = if cx >= fx {
        cx - fx
    } else {
        fx - cx
    };
    let dy = if cy >= fy {
        cy - fy
    } else {
        fy - cy
    };
    spec_isqrt(dx * dx + dy * dy)
}

/// The nearness factor in thousandths: full at the focal point, fading
/// to zero at `maxd` and beyond.
pub open spec fn dot_scale(dist: int, maxd: int) -> int {
    let q = dist * 1000 / maxd;
    1000 - (if q > 1000 {
        1000
    } else {
        q
    })
}

/// A dot's radius: the base radius scaled by 0.3 to 1.8 with nearness,
/// capped at the grid spacing.
pub open spec fn dot_radius(base_r: int, scale: int, s: int) -> int {
    let r0 = base_r * (300 + scale * 15 / 10) / 1000;
    if r0 > s {
        s
    } else {
        r0
    }
}

/// A dot's opacity in hundredths: 0.2 far away, up to 0.7 at the focal
/// point.
pub open spec fn dot_opacity(scale: int) -> int {
    20 + scale * 50 / 1000
}

/// The dot layer as a regular grid with spacing `s` (deci-pixels): one
/// circle per cell, centered in it, with radius and opacity computed
/// from its distance to the focal point `(fx, fy)`.  When the canvas is
/// wide enough for the nominal range, the spacing lies in
/// `[0.04 w, 0.08 w)`.
pub open spec fn dots_grid(
    ps: Seq<Primitive>,
    accents: Seq<u32>,
    s: int,
    fx: int,
    fy: int,
    maxd: int,
    w: u32,
    h: u32,
) -> bool {
    let wd = (w as int) * 10;
    let hd = (h as int) * 10;
    let cols = wd / s + 1;
    &&& 1 <= s
    &&& (1 <= 4 * wd / 100 && 4 * wd / 100 < 8 * wd / 100 ==> 4 * wd / 100 <= s < 8 * wd / 100)
    &&& 2 * wd / 10 <= fx <= 8 * wd / 10
    &&& 2 * hd / 10 <= fy <= 8 * hd / 10
    &&& maxd == ({
        let half_diag = spec_isqrt(wd * wd + hd * hd) / 2;
        if half_diag < 1 {
            1
        } else {
            half_diag
        }
    })
    &&& ps.len() == (hd / s + 1) * cols
    &&& forall|k: int| 0 <= k < ps.len() ==> {
        &&& #[trigger] ps[k] matches Primitive::Circle { cx, cy, r, fill, opacity }
        &&& cx == (k % cols) * s + s / 2
        &&& cy == (k / cols) * s + s / 2
        &&& r == dot_radius(s / 5, dot_scale(dot_dist(cx as int, cy as int, fx, fy), maxd), s)
        &&& opacity == dot_opacity(dot_scale(dot_dist(cx as int, cy as int, fx, fy), maxd))
        &&& (s / 5) * 300 / 1000 <= r <= (s / 5) * 1800 / 1000
        &&& accents.contains(fill)
        &&& 20 <= opacity <= 70
        &&& prim_wf(ps[k])
    }
}

/// The dots generator's guarantee: the whole layer is one such grid.
pub open spec fn dots_output(ps: Seq<Primitive>, accents: Seq<u32>, w: u32, h: u32) -> bool {
    exists|s: int, fx: int, fy: int, maxd: int| #[trigger] dots_grid(
        ps,
        accents,
        s,
        fx,
        fy,
        maxd,
        w,
        h,
    )
}

/// Size and opacity fall off monotonically with the distance to the
/// focal point: of two dots of one grid, the nearer one is at least as
/// large and at least as opaque.
pub proof fn lemma_dots_falloff(d1: int, d2: int, maxd: int, base_r: int, s: int)
    requires
        0 <= d1 <= d2,
        1 <= maxd,
        0 <= base_r,
    ensures
        dot_scale(d1, maxd) >= dot_scale(d2, maxd),
        dot_radius(base_r, dot_scale(d1, maxd), s) >= dot_radius(base_r, dot_scale(d2, maxd), s),
        dot_opacity(dot_scale(d1, maxd)) >= dot_opacity(dot_scale(d2, maxd)),
{
    lemma_div_is_ordered(d1 * 1000, d2 * 1000, maxd);
    lemma_div_is_ordered(0, d1 * 1000, maxd);
    let s1 = dot_scale(d1, maxd);
    let s2 = dot_scale(d2, maxd);
    assert(0 <= s2 <= s1 <= 1000);
    lemma_div_is_ordered(s2 * 15, s1 * 15, 10);
    let f1 = 300 + s1 * 15 / 10;
    let f2 = 300 + s2 * 15 / 10;
    lemma_div_is_ordered(0, s2 * 15, 10);
    assert(300 <= f2 <= f1);
    assert(base_r * f2 <= base_r * f1) by (nonlinear_arith)
        requires 0 <= base_r, f2 <= f1;
    lemma_div_is_ordered(base_r * f2, base_r * f1, 1000);
    lemma_div_is_ordered(s2 * 50, s1 * 50, 1000);
}

/// A dot grid whose dot size and opacity fall off with the distance to a
/// random focal point.
#[verifier::rlimit(100)]
pub fn gen_dots(rng: &mut RandomStream, pal: &Palette, w: u32, h: u32) -> (out: Vec<Primitive>)
    requires
        1 <= w <= crate::MAX_DIM,
        1 <= h <= crate::MAX_DIM,
        pal.accents@.len() >= 1,
    ensures
        dots_output(out@, pal.accents@, w, h),
{
    let wd: i64 = (w as i64) * 10;
    let hd: i64 = (h as i64) * 10;
    let lo_s: i64 = if wd * 4 / 100 < 1 { 1 } else { wd * 4 / 100 };
    let spacing: i64 = rng.range_or_lo(lo_s, wd * 8 / 100);
    let base_r: i64 = spacing / 5;
    let cols: i64 = wd / spacing + 1;
    let rows: i64 = hd / spacing + 1;
    let focus_x = rng.range_or_lo(wd * 2 / 10, wd * 8 / 10);
    let focus_y = rng.range_or_lo(hd * 2 / 10, hd * 8 / 10);
    let max_dist: i64 = {
        let d = diagonal(wd, hd) / 2;
        if d < 1 { 1 } else { d }
    };
    let mut out: Vec<Primitive> = Vec::new();
    let mut row: i64 = 0;
    while row < rows
        invariant
            0 <= row <= rows,
            1 <= spacing <= 1_000_000,
            10 <= wd <= 1_000_000,
            10 <= hd <= 1_000_000,
            wd == (w as int) * 10,
            hd == (h as int) * 10,
            0 <= base_r <= spacing,
            base_r == spacing / 5,
            cols == wd / spacing + 1,
            rows == hd / spacing + 1,
            1 <= max_dist <= 0x100_0000,
            max_dist as int == ({
                let half_diag = spec_isqrt(wd * wd + hd * hd) / 2;
                if half_diag < 1 {
                    1
                } else {
                    half_diag
                }
            }),
            wd * 2 / 10 <= focus_x <= wd * 8 / 10,
            hd * 2 / 10 <= focus_y <= hd * 8 / 10,
            pal.accents@.len() >= 1,
            out@.len() == row * cols,
            forall|k: int| 0 <= k < out@.len() ==> {
                &&& #[trigger] out@[k] matches Primitive::Circle { cx, cy, r, fill, opacity }
                &&& cx == (k % (cols as int)) * spacing + spacing / 2
                &&& cy == (k / (cols as int)) * spacing + spacing / 2
                &&& r == dot_radius(
                    spacing as int / 5,
                    dot_scale(
                        dot_dist(cx as int, cy as int, focus_x as int, focus_y as int),
                        max_dist as int,
                    ),
                    spacing as int,
                )
                &&& opacity == dot_opacity(
                    dot_scale(
                        dot_dist(cx as int, cy as int, focus_x as int, focus_y as int),
                        max_dist as int,
                    ),
                )
                &&& (spacing as int / 5) * 300 / 1000 <= r <= (spacing as int / 5) * 1800 / 1000
                &&& pal.accents@.contains(fill)
                &&& 20 <= opacity <= 70
                &&& prim_wf(out@[k])
            },
        decreases rows - row,
    {
        let mut col: i64 = 0;
        proof {
            assert(row * cols + cols == (row + 1) * cols) by (nonlinear_arith);
            assert((row + 1) * cols <= rows * cols) by (nonlinear_arith)
                requires row + 1 <= rows, cols >= 1;
            assert(rows * cols <= 1_000_001 * 1_000_001) by (nonlinear_arith)
                requires 1 <= rows <= 1_000_001, 1 <= cols <= 1_000_001;
            assert(0 <= row * cols) by (nonlinear_arith)
                requires 0 <= row, 0 <= cols;
        }
        while col < cols
            invariant
                0 <= col <= cols,
                0 <= row < rows,
                1 <= spacing <= 1_000_000,
                10 <= wd <= 1_000_000,
                10 <= hd <= 1_000_000,
                wd == (w as int) * 10,
                hd == (h as int) * 10,
                0 <= base_r <= spacing,
                base_r == spacing / 5,
                cols == wd / spacing + 1,
                rows == hd / spacing + 1,
                1 <= cols <= 1_000_001,
                1 <= rows <= 1_000_001,
                1 <= max_dist <= 0x100_0000,
                max_dist as int == ({
                    let half_diag = spec_isqrt(wd * wd + hd * hd) / 2;
                    if half_diag < 1 {
                        1
                    } else {
                        half_diag
                    }
                }),
                wd * 2 / 10 <= focus_x <= wd * 8 / 10,
                hd * 2 / 10 <= focus_y <= hd * 8 / 10,
                pal.accents@.len() >= 1,
                out@.len() == row * cols + col,
                row * cols + cols == (row + 1) * cols,
                (row + 1) * cols <= rows * cols <= 1_000_001 * 1_000_001,
                forall|k: int| 0 <= k < out@.len() ==> {
                    &&& #[trigger] out@[k] matches Primitive::Circle { cx, cy, r, fill, opacity }
                    &&& cx == (k % (cols as int)) * spacing + spacing / 2
                    &&& cy == (k / (cols as int)) * spacing + spacing / 2
                    &&& r == dot_radius(
                        spacing as int / 5,
                        dot_scale(
                            dot_dist(cx as int, cy as int, focus_x as int, focus_y as int),
                            max_dist as int,
                        ),
                        spacing as int,
                    )
                    &&& opacity == dot_opacity(
                        dot_scale(
                            dot_dist(cx as int, cy as int, focus_x as int, focus_y as int),
                            max_dist as int,
                        ),
                    )
                    &&& (spacing as int / 5) * 300 / 1000 <= r <= (spacing as int / 5) * 1800
                        / 1000
                    &&& pal.accents@.contains(fill)
                    &&& 20 <= opacity <= 70
                    &&& prim_wf(out@[k])
                },
            decreases cols - col,
        {
            proof {
                assert(0 <= row * cols + col < rows * cols) by (nonlinear_arith)
                    requires 0 <= col < cols, 0 <= row < rows;
                assert(col * spacing <= 1_000_001 * 1_000_000) by (nonlinear_arith)
                    requires 0 <= col <= 1_000_001, 1 <= spacing <= 1_000_000;
                assert(row * spacing <= 1_000_001 * 1_000_000) by (nonlinear_arith)
                    requires 0 <= row <= 1_000_001, 1 <= spacing <= 1_000_000;
                assert(0 <= col * spacing) by (nonlinear_arith)
                    requires 0 <= col, 0 <= spacing;
                assert(0 <= row * spacing) by (nonlinear_arith)
                    requires 0 <= row, 0 <= spacing;
                vstd::arithmetic::div_mod::lemma_fundamental_div_mod(wd as int, spacing as int);
                vstd::arithmetic::div_mod::lemma_fundamental_div_mod(hd as int, spacing as int);
                vstd::arithmetic::div_mod::lemma_mod_division_less_than_divisor(
                    wd as int,
                    spacing as int,
                );
                vstd::arithmetic::div_mod::lemma_mod_division_less_than_divisor(
                    hd as int,
                    spacing as int,
                );
                assert((wd / spacing) * spacing <= wd) by (nonlinear_arith)
                    requires
                        wd == spacing * (wd / spacing) + wd % spacing,
                        0 <= wd % spacing,
                ;
                assert((hd / spacing) * spacing <= hd) by (nonlinear_arith)
                    requires
                        hd == spacing * (hd / spacing) + hd % spacing,
                        0 <= hd % spacing,
                ;
                assert(col * spacing <= wd + spacing) by (nonlinear_arith)
                    requires 0 <= col, col <= wd / spacing, 1 <= spacing, (wd / spacing) * spacing <= wd;
                assert(row * spacing <= hd + spacing) by (nonlinear_arith)
                    requires 0 <= row, row <= hd / spacing, 1 <= spacing, (hd / spacing) * spacing <= hd;
            }
            let x: i64 = col * spacing + spacing / 2;
            let y: i64 = row * spacing + spacing / 2;
            let dx: i64 = if x >= focus_x { x - focus_x } else { focus_x - x };
            let dy: i64 = if y >= focus_y { y - focus_y } else { focus_y - y };
            proof {
                assert(dx * dx <= 3_000_000 * 3_000_000) by (nonlinear_arith)
                    requires 0 <= dx <= 3_000_000;
                assert(dy * dy <= 3_000_000 * 3_000_000) by (nonlinear_arith)
                    requires 0 <= dy <= 3_000_000;
                assert(0 <= dx * dx) by (nonlinear_arith);
                assert(0 <= dy * dy) by (nonlinear_arith);
            }
            let dist: i64 = isqrt((dx * dx) as u64 + (dy * dy) as u64) as i64;
            proof {
                assert(dist as int == dot_dist(
                    x as int,
                    y as int,
                    focus_x as int,
                    focus_y as int,
                ));
                lemma_div_is_ordered(0, dist * 1000, max_dist as int);
                assert(0 <= dist * 1000) by (nonlinear_arith)
                    requires 0 <= dist;
            }
            let ratio: i64 = {
                let q = dist * 1000 / max_dist;
                if q > 1000 {
                    1000
                } else {
                    q
                }
            };
            let scale: i64 = 1000 - ratio;
            let factor: i64 = 300 + scale * 15 / 10;
            proof {
                lemma_div_is_ordered(0, scale * 15, 10);
                lemma_div_is_ordered(scale * 15, 15000, 10);
                assert(base_r * 300 <= base_r * factor <= base_r * 1800) by (nonlinear_arith)
                    requires 300 <= factor <= 1800, 0 <= base_r;
                assert(0 <= base_r * factor <= 1_000_000 * 1800) by (nonlinear_arith)
                    requires 300 <= factor <= 1800, 0 <= base_r <= 1_000_000;
                lemma_div_is_ordered(0, base_r * factor, 1000);
                lemma_div_is_ordered(base_r * 300, base_r * factor, 1000);
                lemma_div_is_ordered(base_r * factor, base_r * 1800, 1000);
                // The scaled radius never exceeds the spacing, so the
                // cap below cannot bite.
                vstd::arithmetic::div_mod::lemma_fundamental_div_mod(spacing as int, 5);
                vstd::arithmetic::div_mod::lemma_mod_division_less_than_divisor(spacing as int, 5);
                assert(base_r * 1800 <= spacing * 360) by (nonlinear_arith)
                    requires
                        spacing == 5 * base_r + spacing % 5,
                        0 <= spacing % 5,
                        0 <= base_r,
                ;
                lemma_div_is_ordered(base_r * 1800, spacing * 360, 1000);
                lemma_div_is_ordered(spacing * 360, spacing * 1000, 1000);
                lemma_div_multiples_vanish(spacing as int, 1000);
            }
            let r: i64 = base_r * factor / 1000;
            let r: i64 = if r > spacing { spacing } else { r };
            let color = pick(rng, pal);
            let opacity: u32 = (20 + scale * 50 / 1000) as u32;
            proof {
                lemma_div_is_ordered(0, scale * 50, 1000);
                lemma_div_is_ordered(scale * 50, 50000, 1000);
                assert(0 <= scale * 50 <= 50000) by (nonlinear_arith)
                    requires 0 <= scale <= 1000;
            }
            let ghost k = out@.len() as int;
            out.push(Primitive::Circle { cx: x, cy: y, r, fill: color, opacity });
            proof {
                assert(k % (cols as int) == col && k / (cols as int) == row) by (nonlinear_arith)
                    requires k == row * cols + col, 0 <= col < cols, 0 <= row, cols >= 1;
            }
            col = col + 1;
        }
        row = row + 1;
    }
    proof {
        assert(out@.len() == rows * cols);
        assert(dots_grid(
            out@,
            pal.accents@,
            spacing as int,
            focus_x as int,
            focus_y as int,
            max_dist as int,
            w,
            h,
        ));
    }
    out
}

} // verus!

use vstd::prelude::*;
use crate::doc::{Primitive, Pt, prim_wf};
use crate::fixed::{cos_milli, diagonal, scale_milli, sin_milli, spec_cos_milli, spec_isqrt,
    spec_scale_milli, spec_sin_milli};
use crate::palette::Palette;
use crate::rng::RandomStream;
use vstd::arithmetic::div_mod::{
    lemma_div_denominator, lemma_div_is_ordered, lemma_div_is_ordered_by_denominator,
    lemma_div_multiples_vanish, lemma_fundamental_div_mod, lemma_mod_multiples_basic,
    lemma_mul_hoist_inequality, lemma_mod_division_less_than_divisor,
};

verus! {

/// The five canvas-relative apex choices of the radiating fan.
pub open spec fn sun_origin_ok(ox: int, oy: int, wd: int, hd: int) -> bool {
    ||| (ox == wd / 2 && oy == hd)
    ||| (ox == 0 && oy == hd)
    ||| (ox == wd && oy == hd)
    ||| (ox == wd / 2 && oy == hd / 2)
    ||| (ox == 0 && oy == hd / 2)
}

/// The six off-canvas focal choices of the concentric rings.
pub open spec fn sun_focal_ok(fx: int, fy: int, wd: int, hd: int) -> bool {
    ||| (fx == -(wd / 10) && fy == -(hd / 10))
    ||| (fx == wd + wd / 10 && fy == -(hd / 10))
    ||| (fx == -(wd / 10) && fy == hd + hd / 10)
    ||| (fx == wd + wd / 10 && fy == hd + hd / 10)
    ||| (fx == wd / 2 && fy == -(hd * 2 / 10))
    ||| (fx == wd / 2 && fy == hd + hd * 2 / 10)
}

/// How many rings each focal point emits: half the diagonal over the
/// band width.
pub open spec fn sun_ring_count(wd: int, hd: int, bw: int) -> int {
    (spec_isqrt(wd * wd + hd * hd) / 2) / bw
}

/// Wedge `j` of a fan of `n`: a triangle from the shared apex
/// `(ox, oy)`, its outer vertices at the angles `j / n` and
/// `(j + 0.5) / n` turns, `reach` away; fill cycles through the accents.
pub open spec fn sun_ray(
    p: Primitive,
    accents: Seq<u32>,
    j: int,
    n: int,
    ox: int,
    oy: int,
    reach: int,
) -> bool {
    &&& prim_wf(p)
    &&& p matches Primitive::Polygon { points, fill, opacity }
    &&& p->Polygon_points@.len() == 3
    &&& p->Polygon_points@[0].x == ox && p->Polygon_points@[0].y == oy
    &&& p->Polygon_points@[1].x == ox + spec_scale_milli(
        reach,
        spec_cos_milli((j * 3600 / n) % 3600),
    )
    &&& p->Polygon_points@[1].y == oy + spec_scale_milli(
        reach,
        spec_sin_milli((j * 3600 / n) % 3600),
    )
    &&& p->Polygon_points@[2].x == ox + spec_scale_milli(
        reach,
        spec_cos_milli(((2 * j + 1) * 1800 / n) % 3600),
    )
    &&& p->Polygon_points@[2].y == oy + spec_scale_milli(
        reach,
        spec_sin_milli(((2 * j + 1) * 1800 / n) % 3600),
    )
    &&& p->Polygon_fill == accents[j % accents.len() as int]
    &&& p->Polygon_opacity == 85
}

/// Ring number `i - from` of a ring section: an unfilled circle stroke
/// of width `bw`, radius growing by `bw` per ring within its focal
/// group of `rc` rings, color cycling with the group and ring indices.
pub open spec fn sun_ring_at(
    p: Primitive,
    accents: Seq<u32>,
    bw: int,
    wd: int,
    hd: int,
    i: int,
    rc: int,
) -> bool {
    &&& prim_wf(p)
    &&& p matches Primitive::Ring { cx, cy, r, stroke, width, opacity }
    &&& p->Ring_width == bw
    &&& p->Ring_opacity == 85
    &&& p->Ring_r == (i % rc) * bw
    &&& p->Ring_stroke == accents[((i / rc) + (i % rc)) % accents.len() as int]
    &&& sun_focal_ok(p->Ring_cx as int, p->Ring_cy as int, wd, hd)
}

/// The primitives of `[from, to)` are the rings of 2 to 3 whole focal
/// groups sharing the band width `bw`: radii climb by `bw` within each
/// group, and all rings of one group share their focal center.
pub open spec fn ring_section(
    ps: Seq<Primitive>,
    accents: Seq<u32>,
    from: int,
    to: int,
    bw: int,
    wd: int,
    hd: int,
) -> bool {
    let rc = sun_ring_count(wd, hd, bw);
    &&& rc >= 5
    &&& (to - from) % rc == 0
    &&& 2 <= (to - from) / rc <= 3
    &&& forall|i: int|
        from <= i < to ==> sun_ring_at(#[trigger] ps[i], accents, bw, wd, hd, i - from, rc)
    &&& forall|i: int, i2: int|
        #![trigger ps[i]->Ring_cx, ps[i2]->Ring_cy]
        from <= i < to && from <= i2 < to && (i - from) / rc == (i2 - from) / rc ==> {
            &&& ps[i]->Ring_cx == ps[i2]->Ring_cx
            &&& ps[i]->Ring_cy == ps[i2]->Ring_cy
        }
}

/// The primitives from `k` on are the wedges of one fan around
/// `(ox, oy)`.
pub open spec fn ray_fan(
    ps: Seq<Primitive>,
    accents: Seq<u32>,
    k: int,
    ox: int,
    oy: int,
    reach: int,
) -> bool {
    forall|i: int|
        k <= i < ps.len() ==> sun_ray(
            #[trigger] ps[i],
            accents,
            i - k,
            ps.len() - k,
            ox,
            oy,
            reach,
        )
}

/// The sunburst layer split at `k`: rings first, rays after, and never
/// empty.  One of the three sub-styles: only rays (`k == 0`, 12 to 21
/// wedges), only rings (`k == len`, at least ten), or concentric rings
/// followed by radiating wedges.  Rings form whole focal groups of one
/// band width in `[0.025 w, 0.05 w]` (or the minimum width of one);
/// rays share one of five apexes and reach 1.2 diagonals out.
pub open spec fn sunburst_split(ps: Seq<Primitive>, accents: Seq<u32>, k: int, w: u32, h: u32) -> bool {
    let wd = (w as int) * 10;
    let hd = (h as int) * 10;
    &&& 0 <= k <= ps.len()
    &&& ps.len() >= 10
    &&& (k > 0 ==> k >= 10)
    &&& (k > 0 ==> exists|bw: int|
        {
            &&& 1 <= bw
            &&& (bw == 1 || wd * 25 / 1000 <= bw <= wd * 50 / 1000)
            &&& #[trigger] ring_section(ps, accents, 0, k, bw, wd, hd)
        })
    &&& exists|ox: int, oy: int, reach: int|
        {
            &&& sun_origin_ok(ox, oy, wd, hd)
            &&& reach == spec_isqrt(wd * wd + hd * hd) * 12 / 10
            &&& #[trigger] ray_fan(ps, accents, k, ox, oy, reach)
        }
    &&& (k < ps.len() ==> 12 <= ps.len() - k <= 21)
}

/// The sunburst generator's guarantee: a non-empty layer, never a mix
/// beyond rings-then-rays.
pub open spec fn sunburst_output(ps: Seq<Primitive>, accents: Seq<u32>, w: u32, h: u32) -> bool {
    exists|k: int| #[trigger] sunburst_split(ps, accents, k, w, h)
}

/// Appends 12 to 21 radiating wedges from one of five canvas-relative
/// origins.
#[verifier::rlimit(100)]
fn push_rays(
    rng: &mut RandomStream,
    pal: &Palette,
    wd: i64,
    hd: i64,
    out: &mut Vec<Primitive>,
) -> (n: usize)
    requires
        10 <= wd <= 1_000_000,
        10 <= hd <= 1_000_000,
        pal.accents@.len() >= 1,
    ensures
        12 <= n <= 21,
        final(out)@.len() == old(out)@.len() + n,
        forall|i: int| 0 <= i < old(out)@.len() ==> final(out)@[i] == #[trigger] old(out)@[i],
        exists|ox: int, oy: int, reach: int|
            {
                &&& sun_origin_ok(ox, oy, wd as int, hd as int)
                &&& reach == spec_isqrt(wd * wd + hd * hd) * 12 / 10
                &&& #[trigger] ray_fan(
                    final(out)@,
                    pal.accents@,
                    old(out)@.len() as int,
                    ox,
                    oy,
                    reach,
                )
            },
{
    let which = rng.below_u64(5);
    let (ox, oy): (i64, i64) = if which == 0 {
        (wd / 2, hd)
    } else if which == 1 {
        (0, hd)
    } else if which == 2 {
        (wd, hd)
    } else if which == 3 {
        (wd / 2, hd / 2)
    } else {
        (0, hd / 2)
    };
    proof {
        assert(sun_origin_ok(ox as int, oy as int, wd as int, hd as int));
    }
    let ray_count = rng.range_i64(12, 22);
    let d = diagonal(wd, hd);
    proof {
        lemma_div_is_ordered(0, d * 12, 10);
        lemma_div_is_ordered(d * 12, (0x200_0000 * 12) as int, 10);
    }
    let reach = d * 12 / 10;
    let ghost base = out@.len() as int;
    let mut i: i64 = 0;
    while i < ray_count
        invariant
            12 <= ray_count <= 21,
            0 <= i <= ray_count,
            out@.len() == base + i,
            0 <= base,
            pal.accents@.len() >= 1,
            0 <= ox <= 1_000_000,
            0 <= oy <= 1_000_000,
            0 <= reach <= 41_000_000,
            forall|t: int| 0 <= t < base ==> out@[t] == #[trigger] old(out)@[t],
            forall|t: int|
                base <= t < out@.len() ==> sun_ray(
                    #[trigger] out@[t],
                    pal.accents@,
                    t - base,
                    ray_count as int,
                    ox as int,
                    oy as int,
                    reach as int,
                ),
        decreases ray_count - i,
    {
        let ci = (i as usize) % pal.accents.len();
        let color = pal.accents[ci];
        proof {
            assert(0 <= i * 3600) by (nonlinear_arith)
                requires 0 <= i;
            assert(0 <= (2 * i + 1) * 1800) by (nonlinear_arith)
                requires 0 <= i;
            lemma_div_is_ordered(0, i * 3600, ray_count as int);
            lemma_div_is_ordered(0, (2 * i + 1) * 1800, ray_count as int);
            lemma_mod_division_less_than_divisor(i * 3600 / (ray_count as int), 3600);
            lemma_mod_division_less_than_divisor((2 * i + 1) * 1800 / (ray_count as int), 3600);
        }
        let a1: u32 = ((i * 3600 / ray_count) % 3600) as u32;
        let a2: u32 = (((2 * i + 1) * 1800 / ray_count) % 3600) as u32;
        let x1 = ox + scale_milli(reach, cos_milli(a1));
        let y1 = oy + scale_milli(reach, sin_milli(a1));
        let x2 = ox + scale_milli(reach, cos_milli(a2));
        let y2 = oy + scale_milli(reach, sin_milli(a2));
        let mut points: Vec<Pt> = Vec::new();
        points.push(Pt { x: ox, y: oy });
        points.push(Pt { x: x1, y: y1 });
        points.push(Pt { x: x2, y: y2 });
        let ghost pre = out@.len() as int;
        out.push(Primitive::Polygon { points, fill: color, opacity: 85 });
        proof {
            assert((pre - base) % pal.accents@.len() as int == ci as int);
            assert(sun_ray(
                out@[pre],
                pal.accents@,
                pre - base,
                ray_count as int,
                ox as int,
                oy as int,
                reach as int,
            ));
        }
        i = i + 1;
    }
    proof {
        assert(ray_fan(out@, pal.accents@, base, ox as int, oy as int, reach as int));
    }
    ray_count as usize
}

/// Appends concentric ring strokes around 2 to 3 off-canvas focal
/// points: at least five rings per focal point, so at least ten in all.
#[verifier::rlimit(100)]
fn push_rings(
    rng: &mut RandomStream,
    pal: &Palette,
    wd: i64,
    hd: i64,
    out: &mut Vec<Primitive>,
)
    requires
        10 <= wd <= 1_000_000,
        10 <= hd <= 1_000_000,
        pal.accents@.len() >= 1,
    ensures
        final(out)@.len() >= old(out)@.len() + 10,
        forall|i: int| 0 <= i < old(out)@.len() ==> final(out)@[i] == #[trigger] old(out)@[i],
        exists|bw: int|
            {
                &&& 1 <= bw
                &&& (bw == 1 || wd * 25 / 1000 <= bw <= wd * 50 / 1000)
                &&& #[trigger] ring_section(
                    final(out)@,
                    pal.accents@,
                    old(out)@.len() as int,
                    final(out)@.len() as int,
                    bw,
                    wd as int,
                    hd as int,
                )
            },
{
    let focal_count = rng.range_i64(2, 4);
    let lo_bw = wd * 25 / 1000;
    let hi_bw = wd * 50 / 1000;
    let b = rng.range_or_lo(lo_bw, hi_bw);
    let band_width: i64 = if b < 1 {
        1
    } else {
        b
    };
    let d = diagonal(wd, hd);
    let max_r = d / 2;
    proof {
        // The canvas half-width fits below the half-diagonal.
        lemma_div_is_ordered(wd as int, d as int, 2);
        // Five bands always fit in the half-diagonal: the band width is
        // at most a twentieth of the width (or the minimum of one).
        lemma_mul_hoist_inequality(5, wd * 50, 1000);
        lemma_div_denominator(wd * 250, 250, 4);
        lemma_div_multiples_vanish(wd as int, 250);
        assert(5 * (wd * 50) == wd * 250) by (nonlinear_arith);
        lemma_div_is_ordered_by_denominator(wd as int, 2, 4);
        lemma_mul_hoist_inequality(5, wd * 25, 1000);
        lemma_div_denominator(wd * 125, 125, 8);
        lemma_div_multiples_vanish(wd as int, 125);
        assert(5 * (wd * 25) == wd * 125) by (nonlinear_arith);
        lemma_div_is_ordered_by_denominator(wd as int, 2, 8);
        assert(5 * band_width <= max_r);
        // Hence at least five rings per focal point.
        lemma_div_is_ordered(5 * band_width, max_r as int, band_width as int);
        lemma_div_multiples_vanish(5, band_width as int);
        lemma_div_is_ordered(0, max_r as int, band_width as int);
        vstd::arithmetic::div_mod::lemma_div_nonincreasing(max_r as int, band_width as int);
    }
    let ring_count = max_r / band_width;
    proof {
        assert(ring_count as int == sun_ring_count(wd as int, hd as int, band_width as int));
    }
    let ghost base = out@.len() as int;
    let ghost rc = ring_count as int;
    let mut f: i64 = 0;
    while f < focal_count
        invariant
            2 <= focal_count <= 3,
            0 <= f <= focal_count,
            0 <= base,
            out@.len() == base + f * rc,
            rc == ring_count as int,
            rc == sun_ring_count(wd as int, hd as int, band_width as int),
            pal.accents@.len() >= 1,
            10 <= wd <= 1_000_000,
            10 <= hd <= 1_000_000,
            1 <= band_width <= 50_000,
            5 <= ring_count <= 17_000_000,
            forall|t: int| 0 <= t < base ==> out@[t] == #[trigger] old(out)@[t],
            forall|t: int|
                base <= t < out@.len() ==> sun_ring_at(
                    #[trigger] out@[t],
                    pal.accents@,
                    band_width as int,
                    wd as int,
                    hd as int,
                    t - base,
                    rc,
                ),
            forall|t: int, t2: int|
                #![trigger out@[t]->Ring_cx, out@[t2]->Ring_cy]
                base <= t < out@.len() && base <= t2 < out@.len() && (t - base) / rc == (t2 - base)
                    / rc ==> {
                    &&& out@[t]->Ring_cx == out@[t2]->Ring_cx
                    &&& out@[t]->Ring_cy == out@[t2]->Ring_cy
                },
        decreases focal_count - f,
    {
        let which = rng.below_u64(6);
        let (fx, fy): (i64, i64) = if which == 0 {
            (-(wd / 10), -(hd / 10))
        } else if which == 1 {
            (wd + wd / 10, -(hd / 10))
        } else if which == 2 {
            (-(wd / 10), hd + hd / 10)
        } else if which == 3 {
            (wd + wd / 10, hd + hd / 10)
        } else if which == 4 {
            (wd / 2, -(hd * 2 / 10))
        } else {
            (wd / 2, hd + hd * 2 / 10)
        };
        proof {
            assert(sun_focal_ok(fx as int, fy as int, wd as int, hd as int));
            assert(0 <= f * rc && (f + 1) * rc == f * rc + rc && (f + 1) * rc <= 3 * rc)
                by (nonlinear_arith)
                requires 0 <= f <= 2, 0 <= rc;
        }
        let mut ri: i64 = 0;
        while ri < ring_count
            invariant
                0 <= ri <= ring_count,
                5 <= ring_count <= 17_000_000,
                rc == ring_count as int,
                0 <= f <= 3,
                0 <= base,
                out@.len() == base + f * rc + ri,
                0 <= f * rc <= 3 * 17_000_000,
                pal.accents@.len() >= 1,
                10 <= wd <= 1_000_000,
                10 <= hd <= 1_000_000,
                -200_000 <= fx <= 1_200_000,
                -200_000 <= fy <= 1_200_000,
                sun_focal_ok(fx as int, fy as int, wd as int, hd as int),
                1 <= band_width <= 50_000,
                forall|t: int| 0 <= t < base ==> out@[t] == #[trigger] old(out)@[t],
                forall|t: int|
                    base <= t < out@.len() ==> sun_ring_at(
                        #[trigger] out@[t],
                        pal.accents@,
                        band_width as int,
                        wd as int,
                        hd as int,
                        t - base,
                        rc,
                    ),
                forall|t: int|
                    base + f * rc <= t < out@.len() ==> (#[trigger] out@[t])->Ring_cx == fx
                        && out@[t]->Ring_cy == fy,
                forall|t: int, t2: int|
                    #![trigger out@[t]->Ring_cx, out@[t2]->Ring_cy]
                    base <= t < out@.len() && base <= t2 < out@.len() && (t - base) / rc == (t2
                        - base) / rc ==> {
                        &&& out@[t]->Ring_cx == out@[t2]->Ring_cx
                        &&& out@[t]->Ring_cy == out@[t2]->Ring_cy
                    },
            decreases ring_count - ri,
        {
            proof {
                assert(0 <= ri * band_width <= 17_000_000 * 50_000) by (nonlinear_arith)
                    requires 0 <= ri <= 17_000_000, 1 <= band_width <= 50_000;
                lemma_mod_multiples_basic(ri as int, band_width as int);
            }
            let r = ri * band_width;
            let ci = ((f + ri) as usize) % pal.accents.len();
            let color = pal.accents[ci];
            let ghost li = out@.len() - base;
            out.push(
                Primitive::Ring {
                    cx: fx,
                    cy: fy,
                    r,
                    stroke: color,
                    width: band_width,
                    opacity: 85,
                },
            );
            proof {
                assert(li == f * rc + ri);
                assert(li / rc == f && li % rc == ri) by (nonlinear_arith)
                    requires li == f * rc + ri, 0 <= ri < rc, 0 <= f, rc >= 1;
                assert((f + ri) % pal.accents@.len() as int == ci as int);
                assert(sun_ring_at(
                    out@[base + li],
                    pal.accents@,
                    band_width as int,
                    wd as int,
                    hd as int,
                    li,
                    rc,
                ));
                assert forall|t: int, t2: int|
                    #![trigger out@[t]->Ring_cx, out@[t2]->Ring_cy]
                    base <= t < out@.len() && base <= t2 < out@.len() && (t - base) / rc == (t2
                        - base) / rc implies {
                    &&& out@[t]->Ring_cx == out@[t2]->Ring_cx
                    &&& out@[t]->Ring_cy == out@[t2]->Ring_cy
                } by {
                    if t == base + li || t2 == base + li {
                        // A group's members are contiguous, so any ring
                        // of the new ring's group sits in the current
                        // focal range and shares its center.
                        lemma_fundamental_div_mod(t - base, rc);
                        lemma_fundamental_div_mod(t2 - base, rc);
                        vstd::arithmetic::div_mod::lemma_mod_division_less_than_divisor(
                            t - base,
                            rc,
                        );
                        vstd::arithmetic::div_mod::lemma_mod_division_less_than_divisor(
                            t2 - base,
                            rc,
                        );
                        assert(f * rc <= t - base) by (nonlinear_arith)
                            requires
                                t - base == rc * ((t - base) / rc) + (t - base) % rc,
                                (t - base) / rc == f,
                                0 <= (t - base) % rc,
                                rc >= 1,
                        ;
                        assert(f * rc <= t2 - base) by (nonlinear_arith)
                            requires
                                t2 - base == rc * ((t2 - base) / rc) + (t2 - base) % rc,
                                (t2 - base) / rc == f,
                                0 <= (t2 - base) % rc,
                                rc >= 1,
                        ;
                    }
                }
            }
            ri = ri + 1;
        }
        f = f + 1;
    }
    proof {
        assert(out@.len() >= base + 2 * rc) by (nonlinear_arith)
            requires
                out@.len() == base + focal_count * rc,
                2 <= focal_count,
                0 <= rc,
        ;
        let total = out@.len() - base;
        assert(total == focal_count * rc);
        lemma_mod_multiples_basic(focal_count as int, rc);
        assert((focal_count * rc) % rc == 0);
        lemma_div_multiples_vanish(focal_count as int, rc);
        assert((focal_count * rc) / rc == focal_count as int);
        assert(ring_section(
            out@,
            pal.accents@,
            base,
            out@.len() as int,
            band_width as int,
            wd as int,
            hd as int,
        ));
    }
}

/// One of three sub-styles, chosen uniformly: radiating wedges,
/// concentric rings, or rings then wedges.
#[verifier::rlimit(100)]
pub fn gen_sunburst(rng: &mut RandomStream, pal: &Palette, w: u32, h: u32) -> (out: Vec<Primitive>)
    requires
        1 <= w <= crate::MAX_DIM,
        1 <= h <= crate::MAX_DIM,
        pal.accents@.len() >= 1,
    ensures
        sunburst_output(out@, pal.accents@, w, h),
{
    let wd: i64 = (w as i64) * 10;
    let hd: i64 = (h as i64) * 10;
    let mode = rng.below_u64(3);
    let mut out: Vec<Primitive> = Vec::new();
    if mode == 0 {
        let _rays = push_rays(rng, pal, wd, hd, &mut out);
        proof {
            assert(sunburst_split(out@, pal.accents@, 0, w, h));
        }
    } else if mode == 1 {
        push_rings(rng, pal, wd, hd, &mut out);
        proof {
            let k = out@.len() as int;
            assert(ray_fan(out@, pal.accents@, k, 0, (hd as int) / 2,
                spec_isqrt((wd as int) * (wd as int) + (hd as int) * (hd as int)) * 12 / 10));
            assert(sun_origin_ok(0, (hd as int) / 2, wd as int, hd as int));
            assert(sunburst_split(out@, pal.accents@, k, w, h));
        }
    } else {
        push_rings(rng, pal, wd, hd, &mut out);
        let ghost k = out@.len() as int;
        let ghost pre_rays = out@;
        let ghost bw = choose|bw: int|
            {
                &&& 1 <= bw
                &&& (bw == 1 || wd * 25 / 1000 <= bw <= wd * 50 / 1000)
                &&& #[trigger] ring_section(
                    pre_rays,
                    pal.accents@,
                    0,
                    pre_rays.len() as int,
                    bw,
                    wd as int,
                    hd as int,
                )
            };
        let _rays = push_rays(rng, pal, wd, hd, &mut out);
        proof {
            let rc = sun_ring_count(wd as int, hd as int, bw);
            assert forall|i: int| 0 <= i < k implies sun_ring_at(
                #[trigger] out@[i],
                pal.accents@,
                bw,
                wd as int,
                hd as int,
                i,
                rc,
            ) by {
                assert(out@[i] == pre_rays[i]);
            }
            assert forall|i: int, i2: int|
                #![trigger out@[i]->Ring_cx, out@[i2]->Ring_cy]
                0 <= i < k && 0 <= i2 < k && i / rc == i2 / rc implies {
                &&& out@[i]->Ring_cx == out@[i2]->Ring_cx
                &&& out@[i]->Ring_cy == out@[i2]->Ring_cy
            } by {
                assert(out@[i] == pre_rays[i]);
                assert(out@[i2] == pre_rays[i2]);
                assert(pre_rays[i]->Ring_cx == pre_rays[i2]->Ring_cx && pre_rays[i]->Ring_cy
                    == pre_rays[i2]->Ring_cy);
            }
            assert(ring_section(out@, pal.accents@, 0, k, bw, wd as int, hd as int));
            assert(sunburst_split(out@, pal.accents@, k, w, h));
        }
    }
    out
}

} // verus!

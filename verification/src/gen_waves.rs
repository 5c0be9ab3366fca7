use vstd::prelude::*;
use crate::doc::{PathCmd, Primitive, prim_wf};
use crate::fixed::{scale_milli, sin_milli, spec_scale_milli, spec_sin_milli};
use crate::palette::Palette;
use crate::rng::RandomStream;
use vstd::arithmetic::div_mod::{lemma_div_is_ordered, lemma_div_multiples_vanish};

verus! {

/// The clamped horizontal phase position of `x` across the canvas, in
/// thousandths.
pub open spec fn spec_wave_t(x: int, wd: int) -> int {
    let q = x * 1000 / wd;
    if q > 1000 {
        1000
    } else {
        q
    }
}

/// The vertical position of the wave at `x`: the base line plus three
/// sine harmonics (1, 0.6 and 2.1 times the base frequency) with
/// amplitudes `amp`, 0.4 `amp` and 0.15 `amp`.  Angles are in tenths of
/// a degree, the frequency in thousandths of a cycle per canvas width.
pub open spec fn spec_wave_y(x: int, wd: int, base: int, amp: int, freq: int, phase: int) -> int {
    let t = spec_wave_t(x, wd);
    let a1 = (t * 36 * freq / 10000 + phase) % 3600;
    let a2 = (t * 36 * (freq * 6 / 10) / 10000 + phase * 17 / 10) % 3600;
    let a3 = (t * 36 * (freq * 21 / 10) / 10000 + phase * 3 / 10) % 3600;
    base + spec_scale_milli(amp, spec_sin_milli(a1)) + spec_scale_milli(
        amp * 4 / 10,
        spec_sin_milli(a2),
    ) + spec_scale_milli(amp * 15 / 100, spec_sin_milli(a3))
}

/// Reduces a non-negative angle in tenths of a degree to one turn.
fn angle_mod(a: i64) -> (r: u32)
    requires
        0 <= a,
    ensures
        r == (a as int) % 3600,
        r < 3600,
{
    ((a as u64) % 3600) as u32
}

/// The vertical position of the wave at `x`, computed exactly as
/// `spec_wave_y` describes; the result stays within the combined
/// harmonic amplitude of 1.55 `amp` around the base line.
fn wave_y(x: i64, wd: i64, base: i64, amp: i64, freq: i64, phase: i64) -> (y: i64)
    requires
        0 <= x <= wd,
        10 <= wd <= 1_000_000,
        -2_000_000 <= base <= 2_000_000,
        0 <= amp <= 500_000,
        500 <= freq <= 7000,
        0 <= phase <= 100_000,
    ensures
        y == spec_wave_y(x as int, wd as int, base as int, amp as int, freq as int, phase as int),
        base - (amp + amp * 4 / 10 + amp * 15 / 100) <= y <= base + (amp + amp * 4 / 10 + amp * 15
            / 100),
{
    let t: i64 = {
        let q = x * 1000 / wd;
        if q > 1000 {
            1000
        } else {
            q
        }
    };
    proof {
        lemma_div_is_ordered(0, x * 1000, wd as int);
        assert(0 <= x * 1000) by (nonlinear_arith)
            requires 0 <= x;
        assert(0 <= t * 36 * freq <= 1000 * 36 * 7000) by (nonlinear_arith)
            requires 0 <= t <= 1000, 500 <= freq <= 7000;
        lemma_div_is_ordered(0, t * 36 * freq, 10000);
        lemma_div_is_ordered(t * 36 * freq, (1000 * 36 * 7000) as int, 10000);
        assert(0 <= t * 36 * (freq * 6 / 10) <= 1000 * 36 * 4200) by (nonlinear_arith)
            requires 0 <= t <= 1000, 0 <= freq * 6 / 10 <= 4200;
        lemma_div_is_ordered(0, t * 36 * (freq * 6 / 10), 10000);
        lemma_div_is_ordered(t * 36 * (freq * 6 / 10), (1000 * 36 * 4200) as int, 10000);
        assert(0 <= t * 36 * (freq * 21 / 10) <= 1000 * 36 * 14700) by (nonlinear_arith)
            requires 0 <= t <= 1000, 0 <= freq * 21 / 10 <= 14700;
        lemma_div_is_ordered(0, t * 36 * (freq * 21 / 10), 10000);
        lemma_div_is_ordered(t * 36 * (freq * 21 / 10), (1000 * 36 * 14700) as int, 10000);
    }
    let a1 = angle_mod(t * 36 * freq / 10000 + phase);
    let a2 = angle_mod(t * 36 * (freq * 6 / 10) / 10000 + phase * 17 / 10);
    let a3 = angle_mod(t * 36 * (freq * 21 / 10) / 10000 + phase * 3 / 10);
    base + scale_milli(amp, sin_milli(a1)) + scale_milli(amp * 4 / 10, sin_milli(a2)) + scale_milli(
        amp * 15 / 100,
        sin_milli(a3),
    )
}

/// The closed outline of one filled band: the upper wave edge sampled
/// left to right at the 81 points `wd j / 80`, the lower edge traced
/// back, and a closing command.  The edges sit half the thickness above
/// and below the wave line.
pub open spec fn band_cmds_ok(
    cmds: Seq<PathCmd>,
    wd: int,
    bb: int,
    ba: int,
    freq: int,
    bph: int,
    th: int,
) -> bool {
    &&& cmds.len() == 163
    &&& cmds[0] == (PathCmd::MoveTo { x: 0, y: (spec_wave_y(0, wd, bb, ba, freq, bph) - th / 2) as i64 })
    &&& forall|j: int|
        1 <= j <= 80 ==> #[trigger] cmds[j] == (PathCmd::LineTo {
            x: (wd * j / 80) as i64,
            y: (spec_wave_y(wd * j / 80, wd, bb, ba, freq, bph) - th / 2) as i64,
        })
    &&& forall|k: int|
        0 <= k <= 80 ==> #[trigger] cmds[81 + k] == (PathCmd::LineTo {
            x: (wd * (80 - k) / 80) as i64,
            y: (spec_wave_y(wd * (80 - k) / 80, wd, bb, ba, freq, bph) + th / 2) as i64,
        })
    &&& cmds[162] is Close
}

/// The open polyline of one stroked accent: the wave line itself,
/// sampled at the same 81 points.
pub open spec fn accent_cmds_ok(cmds: Seq<PathCmd>, wd: int, bb: int, ba: int, freq: int, bph: int) -> bool {
    &&& cmds.len() == 81
    &&& cmds[0] == (PathCmd::MoveTo { x: 0, y: spec_wave_y(0, wd, bb, ba, freq, bph) as i64 })
    &&& forall|j: int|
        1 <= j <= 80 ==> #[trigger] cmds[j] == (PathCmd::LineTo {
            x: (wd * j / 80) as i64,
            y: spec_wave_y(wd * j / 80, wd, bb, ba, freq, bph) as i64,
        })
}

/// One filled ribbon band of the wave stack: its outline samples the
/// three-harmonic wave at the shared frequency `freq`, with a band-local
/// base line, amplitude, phase and thickness.
pub open spec fn waves_band(p: Primitive, accents: Seq<u32>, i: int, wd: int, freq: int) -> bool {
    &&& prim_wf(p)
    &&& p matches Primitive::FillPath { cmds, fill, opacity }
    &&& p->FillPath_fill == accents[i % accents.len() as int]
    &&& 70 <= p->FillPath_opacity <= 94
    &&& exists|bb: int, ba: int, bph: int, th: int|
        {
            &&& -900_000 <= bb <= 1_150_000
            &&& 0 <= ba <= 500_000
            &&& 0 <= bph <= 11_100
            &&& 0 <= th <= 100_000
            &&& #[trigger] band_cmds_ok(p->FillPath_cmds@, wd, bb, ba, freq, bph, th)
        }
}

/// One stroked accent line riding a wave of the same shared frequency.
pub open spec fn waves_accent(p: Primitive, accents: Seq<u32>, j: int, wd: int, freq: int) -> bool {
    &&& prim_wf(p)
    &&& p matches Primitive::StrokePath { cmds, stroke, width, opacity, round_cap }
    &&& p->StrokePath_stroke == accents[j % accents.len() as int]
    &&& p->StrokePath_width == 15
    &&& p->StrokePath_opacity == 40
    &&& !p->StrokePath_round_cap
    &&& exists|bb: int, ba: int, bph: int|
        {
            &&& -900_000 <= bb <= 1_150_000
            &&& 0 <= ba <= 500_000
            &&& 0 <= bph <= 11_100
            &&& #[trigger] accent_cmds_ok(p->StrokePath_cmds@, wd, bb, ba, freq, bph)
        }
}

/// The waves layer split: `nb` filled bands, then `na` stroked accents,
/// colors cycling through the accent list, all sampling waves of one
/// shared frequency.
pub open spec fn waves_split(
    ps: Seq<Primitive>,
    accents: Seq<u32>,
    nb: int,
    na: int,
    wd: int,
    freq: int,
) -> bool {
    &&& 8 <= nb <= 15
    &&& 3 <= na <= 5
    &&& 1200 <= freq <= 2799
    &&& ps.len() == nb + na
    &&& forall|i: int| 0 <= i < nb ==> waves_band(#[trigger] ps[i], accents, i, wd, freq)
    &&& forall|i: int| nb <= i < ps.len() ==> waves_accent(#[trigger] ps[i], accents, i - nb, wd, freq)
}

/// The waves generator's guarantee.
pub open spec fn waves_output(ps: Seq<Primitive>, accents: Seq<u32>, w: u32) -> bool {
    exists|nb: int, na: int, freq: int| #[trigger] waves_split(
        ps,
        accents,
        nb,
        na,
        (w as int) * 10,
        freq,
    )
}

/// Builds the closed outline of one filled band.
#[verifier::rlimit(100)]
fn band_cmds(wd: i64, bb: i64, ba: i64, freq: i64, bph: i64, th: i64) -> (cmds: Vec<PathCmd>)
    requires
        10 <= wd <= 1_000_000,
        -900_000 <= bb <= 1_150_000,
        0 <= ba <= 500_000,
        1200 <= freq <= 2799,
        0 <= bph <= 11_100,
        0 <= th <= 100_000,
    ensures
        band_cmds_ok(cmds@, wd as int, bb as int, ba as int, freq as int, bph as int, th as int),
        forall|i: int| 0 <= i < cmds@.len() ==> crate::doc::cmd_wf(#[trigger] cmds@[i]),
{
    let mut cmds: Vec<PathCmd> = Vec::new();
    let y0 = wave_y(0, wd, bb, ba, freq, bph);
    cmds.push(PathCmd::MoveTo { x: 0, y: y0 - th / 2 });
    let mut j: i64 = 1;
    while j <= 80
        invariant
            1 <= j <= 81,
            cmds@.len() == j,
            10 <= wd <= 1_000_000,
            -900_000 <= bb <= 1_150_000,
            0 <= ba <= 500_000,
            1200 <= freq <= 2799,
            0 <= bph <= 11_100,
            0 <= th <= 100_000,
            cmds@[0] == (PathCmd::MoveTo {
                x: 0,
                y: (spec_wave_y(0, wd as int, bb as int, ba as int, freq as int, bph as int) - th
                    / 2) as i64,
            }),
            forall|t: int|
                1 <= t < j ==> #[trigger] cmds@[t] == (PathCmd::LineTo {
                    x: (wd * t / 80) as i64,
                    y: (spec_wave_y(
                        wd as int * t / 80,
                        wd as int,
                        bb as int,
                        ba as int,
                        freq as int,
                        bph as int,
                    ) - th / 2) as i64,
                }),
            forall|t: int| 0 <= t < cmds@.len() ==> crate::doc::cmd_wf(#[trigger] cmds@[t]),
        decreases 81 - j,
    {
        proof {
            assert(0 <= wd * j <= 1_000_000 * 80) by (nonlinear_arith)
                requires 10 <= wd <= 1_000_000, 0 <= j <= 80;
            assert(wd * j <= wd * 80) by (nonlinear_arith)
                requires 10 <= wd, 0 <= j <= 80;
            lemma_div_is_ordered(0, wd * j, 80);
            lemma_div_is_ordered(wd * j, wd * 80, 80);
            lemma_div_multiples_vanish(wd as int, 80);
        }
        let x = wd * j / 80;
        let cy = wave_y(x, wd, bb, ba, freq, bph);
        cmds.push(PathCmd::LineTo { x, y: cy - th / 2 });
        j = j + 1;
    }
    let mut k: i64 = 0;
    while k <= 80
        invariant
            0 <= k <= 81,
            cmds@.len() == 81 + k,
            10 <= wd <= 1_000_000,
            -900_000 <= bb <= 1_150_000,
            0 <= ba <= 500_000,
            1200 <= freq <= 2799,
            0 <= bph <= 11_100,
            0 <= th <= 100_000,
            cmds@[0] == (PathCmd::MoveTo {
                x: 0,
                y: (spec_wave_y(0, wd as int, bb as int, ba as int, freq as int, bph as int) - th
                    / 2) as i64,
            }),
            forall|t: int|
                1 <= t <= 80 ==> #[trigger] cmds@[t] == (PathCmd::LineTo {
                    x: (wd * t / 80) as i64,
                    y: (spec_wave_y(
                        wd as int * t / 80,
                        wd as int,
                        bb as int,
                        ba as int,
                        freq as int,
                        bph as int,
                    ) - th / 2) as i64,
                }),
            forall|t: int|
                0 <= t < k ==> #[trigger] cmds@[81 + t] == (PathCmd::LineTo {
                    x: (wd * (80 - t) / 80) as i64,
                    y: (spec_wave_y(
                        wd as int * (80 - t) / 80,
                        wd as int,
                        bb as int,
                        ba as int,
                        freq as int,
                        bph as int,
                    ) + th / 2) as i64,
                }),
            forall|t: int| 0 <= t < cmds@.len() ==> crate::doc::cmd_wf(#[trigger] cmds@[t]),
        decreases 81 - k,
    {
        proof {
            assert(0 <= wd * (80 - k) <= 1_000_000 * 80) by (nonlinear_arith)
                requires 10 <= wd <= 1_000_000, 0 <= 80 - k <= 80;
            assert(wd * (80 - k) <= wd * 80) by (nonlinear_arith)
                requires 10 <= wd, 0 <= 80 - k <= 80;
            lemma_div_is_ordered(0, wd * (80 - k), 80);
            lemma_div_is_ordered(wd * (80 - k), wd * 80, 80);
            lemma_div_multiples_vanish(wd as int, 80);
        }
        let x = wd * (80 - k) / 80;
        let cy = wave_y(x, wd, bb, ba, freq, bph);
        cmds.push(PathCmd::LineTo { x, y: cy + th / 2 });
        k = k + 1;
    }
    cmds.push(PathCmd::Close);
    proof {
        assert(band_cmds_ok(
            cmds@,
            wd as int,
            bb as int,
            ba as int,
            freq as int,
            bph as int,
            th as int,
        ));
    }
    cmds
}

/// Builds the open polyline of one stroked accent.
#[verifier::rlimit(100)]
fn accent_cmds(wd: i64, bb: i64, ba: i64, freq: i64, bph: i64) -> (cmds: Vec<PathCmd>)
    requires
        10 <= wd <= 1_000_000,
        -900_000 <= bb <= 1_150_000,
        0 <= ba <= 500_000,
        1200 <= freq <= 2799,
        0 <= bph <= 11_100,
    ensures
        accent_cmds_ok(cmds@, wd as int, bb as int, ba as int, freq as int, bph as int),
        forall|i: int| 0 <= i < cmds@.len() ==> crate::doc::cmd_wf(#[trigger] cmds@[i]),
{
    let mut cmds: Vec<PathCmd> = Vec::new();
    let y0 = wave_y(0, wd, bb, ba, freq, bph);
    cmds.push(PathCmd::MoveTo { x: 0, y: y0 });
    let mut j: i64 = 1;
    while j <= 80
        invariant
            1 <= j <= 81,
            cmds@.len() == j,
            10 <= wd <= 1_000_000,
            -900_000 <= bb <= 1_150_000,
            0 <= ba <= 500_000,
            1200 <= freq <= 2799,
            0 <= bph <= 11_100,
            cmds@[0] == (PathCmd::MoveTo {
                x: 0,
                y: spec_wave_y(0, wd as int, bb as int, ba as int, freq as int, bph as int) as i64,
            }),
            forall|t: int|
                1 <= t < j ==> #[trigger] cmds@[t] == (PathCmd::LineTo {
                    x: (wd * t / 80) as i64,
                    y: spec_wave_y(
                        wd as int * t / 80,
                        wd as int,
                        bb as int,
                        ba as int,
                        freq as int,
                        bph as int,
                    ) as i64,
                }),
            forall|t: int| 0 <= t < cmds@.len() ==> crate::doc::cmd_wf(#[trigger] cmds@[t]),
        decreases 81 - j,
    {
        proof {
            assert(0 <= wd * j <= 1_000_000 * 80) by (nonlinear_arith)
                requires 10 <= wd <= 1_000_000, 0 <= j <= 80;
            assert(wd * j <= wd * 80) by (nonlinear_arith)
                requires 10 <= wd, 0 <= j <= 80;
            lemma_div_is_ordered(0, wd * j, 80);
            lemma_div_is_ordered(wd * j, wd * 80, 80);
            lemma_div_multiples_vanish(wd as int, 80);
        }
        let x = wd * j / 80;
        let y = wave_y(x, wd, bb, ba, freq, bph);
        cmds.push(PathCmd::LineTo { x, y });
        j = j + 1;
    }
    proof {
        assert(accent_cmds_ok(cmds@, wd as int, bb as int, ba as int, freq as int, bph as int));
    }
    cmds
}

/// A stack of flowing ribbon bands built from a three-harmonic sine,
/// topped with a few stroked accent lines.
#[verifier::rlimit(100)]
pub fn gen_waves(rng: &mut RandomStream, pal: &Palette, w: u32, h: u32) -> (out: Vec<Primitive>)
    requires
        1 <= w <= crate::MAX_DIM,
        1 <= h <= crate::MAX_DIM,
        pal.accents@.len() >= 1,
    ensures
        waves_output(out@, pal.accents@, w),
{
    let wd: i64 = (w as i64) * 10;
    let hd: i64 = (h as i64) * 10;

    let freq = rng.range_i64(1200, 2800);
    let phase = rng.range_i64(0, 3600);
    let base_amp = rng.range_or_lo(hd / 10, hd / 4);
    let cpc = rng.range_i64(350, 650);
    proof {
        assert(0 <= hd * cpc <= 1_000_000 * 650) by (nonlinear_arith)
            requires 10 <= hd <= 1_000_000, 350 <= cpc <= 649;
        lemma_div_is_ordered(0, hd * cpc, 1000);
        lemma_div_is_ordered(hd * cpc, (1_000_000 * 650) as int, 1000);
    }
    let center_y = hd * cpc / 1000;

    let band_count = rng.range_i64(8, 16);
    let ttm = rng.range_i64(12, 20);
    proof {
        assert(0 <= base_amp * ttm <= 250_000 * 19) by (nonlinear_arith)
            requires 0 <= base_amp <= 250_000, 0 <= ttm <= 19;
        lemma_div_is_ordered(0, base_amp * ttm, 10);
    }
    let total = {
        let t0 = base_amp * ttm / 10;
        if t0 > 500_000 {
            500_000
        } else {
            t0
        }
    };

    let mut out: Vec<Primitive> = Vec::new();
    let mut i: i64 = 0;
    while i < band_count
        invariant
            8 <= band_count <= 15,
            0 <= i <= band_count,
            out@.len() == i,
            pal.accents@.len() >= 1,
            10 <= wd <= 1_000_000,
            10 <= hd <= 1_000_000,
            1200 <= freq <= 2799,
            0 <= phase <= 3599,
            0 <= base_amp <= 250_000,
            0 <= center_y <= 650_000,
            0 <= total <= 500_000,
            forall|t: int| 0 <= t < out@.len() ==> waves_band(
                #[trigger] out@[t],
                pal.accents@,
                t,
                wd as int,
                freq as int,
            ),
        decreases band_count - i,
    {
        let color_i = (i as usize) % pal.accents.len();
        let color = pal.accents[color_i];
        let tm = i * 1000 / (band_count - 1);
        proof {
            assert(0 <= i * 1000 <= 15000) by (nonlinear_arith)
                requires 0 <= i <= 15;
            lemma_div_is_ordered(0, i * 1000, band_count - 1);
            lemma_div_is_ordered(i * 1000, 15000, band_count - 1);
            vstd::arithmetic::div_mod::lemma_div_nonincreasing(15000, band_count - 1);
        }
        let tm = if tm > 1000 {
            1000
        } else {
            tm
        };
        let spread: i64 = if tm >= 500 {
            (tm - 500) * 2
        } else {
            (500 - tm) * 2
        };
        let band_offset = scale_milli(total, tm - 500);
        let band_amp = base_amp + scale_milli(base_amp, spread * 3 / 10);
        let rj = rng.range_i64(57, 229);
        let band_phase = {
            let delta = scale_milli(rj, tm - 500);
            // Keep the phase argument non-negative; a whole-turn shift
            // leaves the angle unchanged.
            phase + 7200 + delta
        };
        let band_base = center_y + band_offset;
        let rj2 = rng.range_i64(8, 14);
        proof {
            lemma_div_is_ordered(0, total as int, band_count as int);
            vstd::arithmetic::div_mod::lemma_div_nonincreasing(total as int, band_count as int);
            assert(0 <= (total / band_count) * rj2 <= 500_000 * 13) by (nonlinear_arith)
                requires 0 <= total / band_count <= 500_000, 0 <= rj2 <= 13;
            lemma_div_is_ordered(0, (total / band_count) * rj2, 10);
        }
        let thickness = {
            let tb = total / band_count;
            let th = tb * rj2 / 10;
            if th > 100_000 {
                100_000
            } else {
                th
            }
        };
        let cmds = band_cmds(wd, band_base, band_amp, freq, band_phase, thickness);
        let opacity = rng.range_i64(70, 95) as u32;
        let ghost pre = out@.len() as int;
        out.push(Primitive::FillPath { cmds, fill: color, opacity });
        proof {
            assert(pre % pal.accents@.len() as int == color_i as int);
            assert(band_cmds_ok(
                out@[pre]->FillPath_cmds@,
                wd as int,
                band_base as int,
                band_amp as int,
                freq as int,
                band_phase as int,
                thickness as int,
            ));
            assert(waves_band(out@[pre], pal.accents@, pre, wd as int, freq as int));
        }
        i = i + 1;
    }

    // Stroked accent lines over the band stack.
    let accent_count = rng.range_i64(3, 6);
    let ghost nb = band_count as int;
    let mut a: i64 = 0;
    while a < accent_count
        invariant
            3 <= accent_count <= 5,
            0 <= a <= accent_count,
            8 <= nb <= 15,
            out@.len() == nb + a,
            pal.accents@.len() >= 1,
            10 <= wd <= 1_000_000,
            10 <= hd <= 1_000_000,
            1200 <= freq <= 2799,
            0 <= phase <= 3599,
            0 <= base_amp <= 250_000,
            0 <= center_y <= 650_000,
            0 <= total <= 500_000,
            forall|t: int| 0 <= t < nb ==> waves_band(
                #[trigger] out@[t],
                pal.accents@,
                t,
                wd as int,
                freq as int,
            ),
            forall|t: int| nb <= t < out@.len() ==> waves_accent(
                #[trigger] out@[t],
                pal.accents@,
                t - nb,
                wd as int,
                freq as int,
            ),
        decreases accent_count - a,
    {
        let color_i = (a as usize) % pal.accents.len();
        let color = pal.accents[color_i];
        let tm = (a * 1000 + 500) / accent_count;
        proof {
            assert(0 <= a * 1000 + 500 <= 4500) by (nonlinear_arith)
                requires 0 <= a <= 4;
            lemma_div_is_ordered(0, a * 1000 + 500, accent_count as int);
            lemma_div_is_ordered(a * 1000 + 500, 4500, accent_count as int);
            vstd::arithmetic::div_mod::lemma_div_nonincreasing(4500, accent_count as int);
        }
        let tm = if tm > 1000 {
            1000
        } else {
            tm
        };
        let band_offset = scale_milli(total, tm - 500);
        let band_base = center_y + band_offset;
        let band_phase = {
            let delta = scale_milli(115, tm - 500);
            phase + 7200 + delta
        };
        let cmds = accent_cmds(wd, band_base, base_amp, freq, band_phase);
        let ghost pre = out@.len() as int;
        out.push(
            Primitive::StrokePath {
                cmds,
                stroke: color,
                width: 15,
                opacity: 40,
                round_cap: false,
            },
        );
        proof {
            assert((pre - nb) % pal.accents@.len() as int == color_i as int);
            assert(accent_cmds_ok(
                out@[pre]->StrokePath_cmds@,
                wd as int,
                band_base as int,
                base_amp as int,
                freq as int,
                band_phase as int,
            ));
            assert(waves_accent(out@[pre], pal.accents@, pre - nb, wd as int, freq as int));
        }
        a = a + 1;
    }
    proof {
        assert(waves_split(
            out@,
            pal.accents@,
            nb,
            accent_count as int,
            wd as int,
            freq as int,
        ));
    }
    out
}

} // verus!

use vstd::prelude::*;
use crate::doc::{Document, Primitive, prim_wf, doc_wf};
use crate::palette::Palette;
use crate::rng::RandomStream;
use crate::styles::{Style, parse_styles, spec_styles};
use crate::gen_abstract::{abstract_output, gen_abstract};
use crate::gen_dots::{dots_grid, dots_output, gen_dots};
use crate::gen_geometric::{gen_geometric, geometric_output};
use crate::gen_gradient::{gen_gradient, gradient_output, gradient_split};
use crate::gen_isometric::{gen_isometric, isometric_output};
use crate::gen_lineart::{gen_lineart, lineart_output};
use crate::gen_minimal::{gen_minimal, minimal_output};
use crate::gen_silkflow::{gen_silkflow, silk_split, silkflow_output};
use crate::gen_sunburst::{gen_sunburst, sunburst_output, sunburst_split};
use crate::gen_waves::{gen_waves, waves_output, waves_split};

verus! {

/// What each generator guarantees of the layer it produces.
pub open spec fn style_output(
    st: Style,
    chunk: Seq<Primitive>,
    accents: Seq<u32>,
    w: u32,
    h: u32,
) -> bool {
    match st {
        Style::Geometric => geometric_output(chunk, accents, w, h),
        Style::Gradient => gradient_output(chunk, accents),
        Style::Minimal => minimal_output(chunk, accents, w, h),
        Style::Lineart => lineart_output(chunk, accents, w, h),
        Style::Isometric => isometric_output(chunk, accents, w),
        Style::Abstract => abstract_output(chunk, accents, w, h),
        Style::Waves => waves_output(chunk, accents, w),
        Style::Dots => dots_output(chunk, accents, w, h),
        Style::Silkflow => silkflow_output(chunk, accents, w, h),
        Style::Sunburst => sunburst_output(chunk, accents, w, h),
    }
}

/// Whatever the style, every primitive a generator emits is within
/// serialization bounds.
pub proof fn lemma_style_output_wf(st: Style, chunk: Seq<Primitive>, accents: Seq<u32>, w: u32, h: u32)
    requires
        style_output(st, chunk, accents, w, h),
    ensures
        forall|i: int| 0 <= i < chunk.len() ==> prim_wf(#[trigger] chunk[i]),
{
    match st {
        Style::Geometric => {},
        Style::Gradient => {
            let (no, nb) = choose|no: int, nb: int| #[trigger] gradient_split(chunk, accents, no, nb);
        },
        Style::Minimal => {},
        Style::Lineart => {},
        Style::Isometric => {
            let d = choose|d: int|
                80 <= d <= 139 && #[trigger] crate::gen_isometric::iso_layer(
                    chunk,
                    accents,
                    crate::gen_isometric::iso_cell(w, d),
                );
            assert forall|i: int| 0 <= i < chunk.len() implies prim_wf(#[trigger] chunk[i]) by {
                if i % 2 == 0 {
                    assert(crate::gen_isometric::iso_pair(
                        chunk[i],
                        chunk[i + 1],
                        crate::gen_isometric::iso_cell(w, d),
                        accents,
                    ));
                } else {
                    assert(crate::gen_isometric::iso_pair(
                        chunk[i - 1],
                        chunk[i],
                        crate::gen_isometric::iso_cell(w, d),
                        accents,
                    ));
                }
            }
        },
        Style::Abstract => {},
        Style::Waves => {
            let (nb, na, freq) = choose|nb: int, na: int, freq: int| #[trigger] waves_split(
                chunk,
                accents,
                nb,
                na,
                (w as int) * 10,
                freq,
            );
        },
        Style::Dots => {
            let (s, fx, fy, maxd) = choose|s: int, fx: int, fy: int, maxd: int| #[trigger] dots_grid(
                chunk,
                accents,
                s,
                fx,
                fy,
                maxd,
                w,
                h,
            );
        },
        Style::Silkflow => {
            let nr = choose|nr: int| #[trigger] silk_split(chunk, accents, nr, w, h);
            let (ci, bflow) = choose|ci: int, bflow: int| #[trigger] crate::gen_silkflow::silk_colored(
                chunk,
                accents,
                nr,
                ci,
                bflow,
                w,
                h,
            );
        },
        Style::Sunburst => {
            let k = choose|k: int| #[trigger] sunburst_split(chunk, accents, k, w, h);
            let wd = (w as int) * 10;
            let hd = (h as int) * 10;
            assert forall|i: int| 0 <= i < chunk.len() implies prim_wf(#[trigger] chunk[i]) by {
                if i < k {
                    let bw = choose|bw: int|
                        {
                            &&& 1 <= bw
                            &&& (bw == 1 || wd * 25 / 1000 <= bw <= wd * 50 / 1000)
                            &&& #[trigger] crate::gen_sunburst::ring_section(
                                chunk,
                                accents,
                                0,
                                k,
                                bw,
                                wd,
                                hd,
                            )
                        };
                    assert(crate::gen_sunburst::sun_ring_at(
                        chunk[i],
                        accents,
                        bw,
                        wd,
                        hd,
                        i,
                        crate::gen_sunburst::sun_ring_count(wd, hd, bw),
                    ));
                } else {
                    let (ox, oy, reach) = choose|ox: int, oy: int, reach: int|
                        {
                            &&& crate::gen_sunburst::sun_origin_ok(ox, oy, wd, hd)
                            &&& reach == crate::fixed::spec_isqrt(wd * wd + hd * hd) * 12 / 10
                            &&& #[trigger] crate::gen_sunburst::ray_fan(
                                chunk,
                                accents,
                                k,
                                ox,
                                oy,
                                reach,
                            )
                        };
                    assert(crate::gen_sunburst::sun_ray(
                        chunk[i],
                        accents,
                        i - k,
                        chunk.len() - k,
                        ox,
                        oy,
                        reach,
                    ));
                }
            }
        },
    }
}

/// Runs the generator a style names.
pub fn generate_style(
    st: Style,
    rng: &mut RandomStream,
    pal: &Palette,
    w: u32,
    h: u32,
) -> (out: Vec<Primitive>)
    requires
        1 <= w <= crate::MAX_DIM,
        1 <= h <= crate::MAX_DIM,
        pal.accents@.len() >= 1,
    ensures
        style_output(st, out@, pal.accents@, w, h),
{
    match st {
        Style::Geometric => gen_geometric(rng, pal, w, h),
        Style::Gradient => gen_gradient(rng, pal, w, h),
        Style::Minimal => gen_minimal(rng, pal, w, h),
        Style::Lineart => gen_lineart(rng, pal, w, h),
        Style::Isometric => gen_isometric(rng, pal, w, h),
        Style::Abstract => gen_abstract(rng, pal, w, h),
        Style::Waves => gen_waves(rng, pal, w, h),
        Style::Dots => gen_dots(rng, pal, w, h),
        Style::Silkflow => gen_silkflow(rng, pal, w, h),
        Style::Sunburst => gen_sunburst(rng, pal, w, h),
    }
}

/// The layers decompose at the cut points `bounds`: chunk `k` is exactly
/// what generator `styles[k]` guarantees, in request order.
pub open spec fn layers_decompose(
    layers: Seq<Primitive>,
    styles: Seq<Style>,
    accents: Seq<u32>,
    w: u32,
    h: u32,
    bounds: Seq<int>,
) -> bool {
    &&& bounds.len() == styles.len() + 1
    &&& bounds[0] == 0
    &&& bounds[styles.len() as int] == layers.len()
    &&& forall|k: int| 0 <= k < styles.len() ==> 0 <= #[trigger] bounds[k] <= bounds[k + 1]
        <= layers.len()
    &&& forall|k: int| 0 <= k < styles.len() ==> style_output(
        styles[k],
        #[trigger] layers.subrange(bounds[k], bounds[k + 1]),
        accents,
        w,
        h,
    )
}

/// The composition guarantee: the layer list is the concatenation, in
/// request order, of one generator layer per requested style.
pub open spec fn composed(
    layers: Seq<Primitive>,
    styles: Seq<Style>,
    accents: Seq<u32>,
    w: u32,
    h: u32,
) -> bool {
    exists|bounds: Seq<int>| #[trigger] layers_decompose(layers, styles, accents, w, h, bounds)
}

/// The default composition: with no styles requested, the document's
/// layers are one geometric layer of 15 to 29 shapes followed by one
/// gradient layer, and nothing else.
pub proof fn lemma_default_composition(
    layers: Seq<Primitive>,
    accents: Seq<u32>,
    w: u32,
    h: u32,
    bounds: Seq<int>,
)
    requires
        layers_decompose(layers, spec_styles(Seq::empty()), accents, w, h, bounds),
    ensures
        0 <= bounds[1] <= layers.len(),
        crate::gen_geometric::geometric_output(layers.subrange(0, bounds[1]), accents, w, h),
        crate::gen_gradient::gradient_output(
            layers.subrange(bounds[1], layers.len() as int),
            accents,
        ),
        15 <= bounds[1] <= 29,
{
    let sts = spec_styles(Seq::empty());
    assert(sts == seq![Style::Geometric, Style::Gradient]);
    assert(sts[0] == Style::Geometric && sts[1] == Style::Gradient);
    assert(style_output(sts[0], layers.subrange(bounds[0], bounds[1]), accents, w, h));
    assert(style_output(sts[1], layers.subrange(bounds[1], bounds[2]), accents, w, h));
    assert(bounds[0] == 0);
    assert(bounds[2] == layers.len());
    assert(layers.subrange(0, bounds[1]).len() == bounds[1]);
}

/// Builds the vector document for a request: the requested styles in
/// given order (the default pair for an empty list), each generator's
/// layer appended after the previous one, over an opaque background in
/// the palette's background color.  The document is authored at the
/// target size.
pub fn compose(
    styles: &Vec<String>,
    pal: &Palette,
    width: u32,
    height: u32,
    rng: &mut RandomStream,
) -> (doc: Document)
    requires
        1 <= width <= crate::MAX_DIM,
        1 <= height <= crate::MAX_DIM,
        pal.accents@.len() >= 1,
    ensures
        doc.width == width,
        doc.height == height,
        doc.background == pal.bg,
        doc_wf(doc),
        composed(doc.layers@, spec_styles(styles.deep_view()), pal.accents@, width, height),
{
    let sts = parse_styles(styles);
    let ghost sts_s = spec_styles(styles.deep_view());
    let mut layers: Vec<Primitive> = Vec::new();
    let mut i: usize = 0;
    let ghost mut cuts: Seq<int> = seq![0int];
    while i < sts.len()
        invariant
            i <= sts.len(),
            sts@ == sts_s,
            1 <= width <= crate::MAX_DIM,
            1 <= height <= crate::MAX_DIM,
            pal.accents@.len() >= 1,
            cuts.len() == i + 1,
            cuts[0] == 0,
            cuts[i as int] == layers@.len(),
            forall|k: int| 0 <= k < i ==> 0 <= #[trigger] cuts[k] <= cuts[k + 1] <= layers@.len(),
            forall|k: int| 0 <= k < i ==> style_output(
                sts_s[k],
                #[trigger] layers@.subrange(cuts[k], cuts[k + 1]),
                pal.accents@,
                width,
                height,
            ),
            forall|t: int| 0 <= t < layers@.len() ==> prim_wf(#[trigger] layers@[t]),
        decreases sts.len() - i,
    {
        let mut part = generate_style(sts[i], rng, pal, width, height);
        let ghost part_s = part@;
        let ghost pre = layers@;
        layers.append(&mut part);
        proof {
            lemma_style_output_wf(sts_s[i as int], part_s, pal.accents@, width, height);
            assert(layers@ == pre + part_s);
            assert forall|k: int| 0 <= k < i implies style_output(
                sts_s[k],
                #[trigger] layers@.subrange(cuts[k], cuts[k + 1]),
                pal.accents@,
                width,
                height,
            ) by {
                assert(layers@.subrange(cuts[k], cuts[k + 1]) =~= pre.subrange(
                    cuts[k],
                    cuts[k + 1],
                ));
            }
            assert(layers@.subrange(pre.len() as int, layers@.len() as int) =~= part_s);
            cuts = cuts.push(layers@.len() as int);
        }
        i = i + 1;
    }
    proof {
        assert(layers_decompose(layers@, sts_s, pal.accents@, width, height, cuts));
    }
    Document { width, height, background: pal.bg, layers }
}

} // verus!

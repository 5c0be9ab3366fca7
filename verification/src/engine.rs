use vstd::prelude::*;
use crate::compose::{compose, composed};
use crate::doc::Document;
use crate::error::AppError;
use crate::palette::{effective_pools, resolve_palette, spec_resolve, wf_draws};
use crate::raster::{pixmap_height, pixmap_width, png_encoding, rasterize, svg_parses};
use crate::rng::RandomStream;
use crate::styles::spec_styles;
use crate::svg::{doc_chars, svg_text};

verus! {

/// Generates a procedural wallpaper for the requested style and scheme
/// tags and rasterizes it to PNG bytes of exactly the target size.
///
/// A zero axis is rejected as `InvalidDimension` before any work; a size
/// beyond what the rasterizer can allocate fails as
/// `RasterizationFailure`.  For every drawable size a document is built
/// whose background comes from the resolved palette and whose layers are
/// the requested generators' output in request order, and the call
/// succeeds exactly when the SVG parser accepts that document's markup;
/// the only failure is then `RasterizationFailure`.  On success the
/// bytes are the PNG encoding of a pixel buffer of exactly
/// `target_width` by `target_height` pixels.
pub fn generate(
    styles: &Vec<String>,
    schemes: &Vec<String>,
    custom_prompt: Option<&str>,
    target_width: u32,
    target_height: u32,
    rng: &mut RandomStream,
) -> (r: Result<Vec<u8>, AppError>)
    ensures
        (r matches Err(AppError::InvalidDimension)) <==> (target_width == 0 || target_height == 0),
        target_width >= 1 && target_height >= 1 && !crate::spec_valid_dims(
            target_width,
            target_height,
        ) ==> r matches Err(AppError::RasterizationFailure(_)),
        r is Err ==> (r matches Err(AppError::InvalidDimension) || r matches Err(
            AppError::RasterizationFailure(_),
        )),
        crate::spec_valid_dims(target_width, target_height) ==> ({
            let pools = effective_pools(schemes.deep_view());
            exists|d: Document, ds: Seq<int>, bg: int|
                #![trigger wf_draws(pools, ds, bg), svg_parses(doc_chars(d))]
                {
                    &&& wf_draws(pools, ds, bg)
                    &&& d.width == target_width
                    &&& d.height == target_height
                    &&& d.background == spec_resolve(pools, ds, bg).0
                    &&& composed(
                        d.layers@,
                        spec_styles(styles.deep_view()),
                        spec_resolve(pools, ds, bg).1,
                        target_width,
                        target_height,
                    )
                    &&& (r is Ok <==> svg_parses(doc_chars(d)))
                }
        }),
        r matches Ok(bytes) ==> exists|p: tiny_skia::Pixmap|
            {
                &&& #[trigger] pixmap_width(p) == target_width
                &&& pixmap_height(p) == target_height
                &&& bytes@ == png_encoding(p)
            },
{
    // The vector mode draws no text, so the free-form prompt plays no
    // part here; it belongs to the callers that talk to an image API.
    let _ = custom_prompt;
    if target_width == 0 || target_height == 0 {
        return Err(AppError::InvalidDimension);
    }
    if !crate::valid_dims(target_width, target_height) {
        let mut m = String::new();
        m.append("Failed to create pixel buffer: target size too large");
        return Err(AppError::RasterizationFailure(m));
    }
    let palette = resolve_palette(schemes, rng);
    let doc = compose(styles, &palette, target_width, target_height, rng);
    let svg = svg_text(&doc);
    let r = rasterize(svg.as_str(), target_width, target_height);
    proof {
        let pools = effective_pools(schemes.deep_view());
        let (ds, bg) = choose|ds: Seq<int>, bg: int|
            wf_draws(pools, ds, bg) && palette.bg == spec_resolve(pools, ds, bg).0
                && palette.accents@ == spec_resolve(pools, ds, bg).1;
        assert(wf_draws(pools, ds, bg) && doc.width == target_width && doc.height == target_height
            && doc.background == spec_resolve(pools, ds, bg).0 && composed(
            doc.layers@,
            spec_styles(styles.deep_view()),
            spec_resolve(pools, ds, bg).1,
            target_width,
            target_height,
        ) && (r is Ok <==> svg_parses(doc_chars(doc))));
    }
    r
}

} // verus!

use vstd::prelude::*;
use resvg::usvg;
use crate::error::AppError;

verus! {

/// The parsed vector render tree of the resvg toolkit.  Opaque to
/// verification; it only travels from the parse wrapper to the render
/// wrapper.
#[verifier::external_type_specification]
#[verifier::external_body]
pub struct ExTree(usvg::Tree);

/// The pixel buffer of the tiny-skia rasterizer, opaque to verification.
#[verifier::external_type_specification]
#[verifier::external_body]
pub struct ExPixmap(tiny_skia::Pixmap);

/// The width, in pixels, of a pixel buffer.
pub uninterp spec fn pixmap_width(p: tiny_skia::Pixmap) -> u32;

/// The height, in pixels, of a pixel buffer.
pub uninterp spec fn pixmap_height(p: tiny_skia::Pixmap) -> u32;

/// The PNG encoding of a pixel buffer: a function of its size and
/// pixels alone.
pub uninterp spec fn png_encoding(p: tiny_skia::Pixmap) -> Seq<u8>;

/// Whether the SVG parser accepts this markup: under fixed default
/// options, acceptance is a function of the text alone.
pub uninterp spec fn svg_parses(s: Seq<char>) -> bool;

/// Relies on usvg::Tree::from_str: parses SVG markup into a render tree,
/// or reports why it cannot.  With the fixed default options the outcome
/// depends on the text alone, which `svg_parses` names.
#[verifier::external_body]
fn parse_svg(text: &str) -> (r: Result<usvg::Tree, String>)
    ensures
        r is Ok <==> svg_parses(text@),
{
    usvg::Tree::from_str(text, &usvg::Options::default()).map_err(|e| e.to_string())
}

/// Relies on tiny_skia::Pixmap::new: for a positive size whose rows fit
/// i32 and whose total byte count (four per pixel) fits the buffer
/// limit, it allocates a transparent pixmap of exactly that size (its
/// source returns None only outside those bounds).
#[verifier::external_body]
fn new_pixmap(width: u32, height: u32) -> (r: tiny_skia::Pixmap)
    requires
        crate::spec_valid_dims(width, height),
    ensures
        pixmap_width(r) == width,
        pixmap_height(r) == height,
{
    tiny_skia::Pixmap::new(width, height).unwrap()
}

/// Relies on resvg::render: paints the tree into the pixmap through a
/// scale transform computed from the tree's own declared size, so the
/// output always fills the buffer whatever the authored aspect ratio.
/// Rendering writes pixels only; the buffer keeps its size.
#[verifier::external_body]
fn render_tree(tree: &usvg::Tree, pixmap: &mut tiny_skia::Pixmap)
    ensures
        pixmap_width(*final(pixmap)) == pixmap_width(*old(pixmap)),
        pixmap_height(*final(pixmap)) == pixmap_height(*old(pixmap)),
{
    let size = tree.size();
    // The first bindings only fix the float type for the casts below.
    let mut sx = size.width();
    sx = pixmap.width() as _;
    let mut sy = size.height();
    sy = pixmap.height() as _;
    let transform = tiny_skia::Transform::from_scale(sx / size.width(), sy / size.height());
    resvg::render(tree, transform, &mut pixmap.as_mut());
}

/// Relies on tiny_skia::Pixmap::encode_png: encodes the buffer as PNG
/// bytes, a deterministic function of the pixmap.  Its source writes a
/// fixed RGBA/8-bit stream into a vector and has no failure path for a
/// valid pixmap, so encoding always succeeds.
#[verifier::external_body]
fn encode_png(pixmap: &tiny_skia::Pixmap) -> (r: Result<Vec<u8>, String>)
    ensures
        r is Ok,
        r matches Ok(v) ==> v@ == png_encoding(*pixmap),
{
    pixmap.encode_png().map_err(|e| e.to_string())
}

/// Parses the vector markup, renders it into a pixel buffer of exactly
/// `width` by `height` pixels, and encodes the buffer as PNG bytes.
/// Success is owed exactly when the parser accepts the markup; the one
/// failure surfaces as `RasterizationFailure`, and on success the bytes
/// are the PNG encoding of a buffer of exactly the target size.
pub fn rasterize(svg: &str, width: u32, height: u32) -> (r: Result<Vec<u8>, AppError>)
    requires
        crate::spec_valid_dims(width, height),
    ensures
        r is Ok <==> svg_parses(svg@),
        r matches Ok(bytes) ==> exists|p: tiny_skia::Pixmap|
            {
                &&& #[trigger] pixmap_width(p) == width
                &&& pixmap_height(p) == height
                &&& bytes@ == png_encoding(p)
            },
        r is Err ==> r matches Err(AppError::RasterizationFailure(_)),
{
    let tree = match parse_svg(svg) {
        Ok(t) => t,
        Err(e) => {
            let mut m = String::new();
            m.append("Failed to parse SVG: ");
            m.append(e.as_str());
            return Err(AppError::RasterizationFailure(m));
        },
    };
    let mut pixmap = new_pixmap(width, height);
    render_tree(&tree, &mut pixmap);
    match encode_png(&pixmap) {
        Ok(bytes) => {
            proof {
                assert(pixmap_width(pixmap) == width && pixmap_height(pixmap) == height && bytes@
                    == png_encoding(pixmap));
            }
            Ok(bytes)
        },
        Err(e) => {
            // Unreachable: the encoder promises success for every pixmap.
            let mut m = String::new();
            m.append("Failed to encode PNG: ");
            m.append(e.as_str());
            Err(AppError::RasterizationFailure(m))
        },
    }
}

} // verus!

use vstd::prelude::*;

verus! {

// The vector document model.  Coordinates and lengths are fixed-point
// deci-pixels (tenths of a pixel), angles tenths of a degree, opacities
// hundredths, colors packed 0xRRGGBB.  A document is built once per
// request, serialized, rasterized and discarded.

/// A point in deci-pixels.
#[derive(Clone, Copy, PartialEq, Eq, Structural)]
pub struct Pt {
    pub x: i64,
    pub y: i64,
}

/// One command of a path outline.
#[derive(Clone, Copy, PartialEq, Eq, Structural)]
pub enum PathCmd {
    MoveTo { x: i64, y: i64 },
    LineTo { x: i64, y: i64 },
    /// A cubic Bezier segment: two control points, then the end point.
    CubicTo { x1: i64, y1: i64, x2: i64, y2: i64, x: i64, y: i64 },
    Close,
}

/// A gradient color stop; `offset` is a percentage.
#[derive(Clone, Copy, PartialEq, Eq, Structural)]
pub struct Stop {
    pub offset: u32,
    pub color: u32,
    pub opacity: u32,
}

/// A gradient paint definition.  Linear endpoints and radial centers are
/// percentages of the shape's bounding box.
pub enum Gradient {
    Linear { x1: u32, y1: u32, x2: u32, y2: u32, stops: Vec<Stop> },
    Radial { cx: u32, cy: u32, r: u32, color: u32, op_in: u32, op_out: u32 },
}

/// One drawing primitive.  Later primitives paint over earlier ones.
pub enum Primitive {
    /// A filled polygon.
    Polygon { points: Vec<Pt>, fill: u32, opacity: u32 },
    /// A filled circle.
    Circle { cx: i64, cy: i64, r: i64, fill: u32, opacity: u32 },
    /// An unfilled circle outline of the given stroke width.
    Ring { cx: i64, cy: i64, r: i64, stroke: u32, width: i64, opacity: u32 },
    /// An axis-aligned filled rectangle.
    Rect { x: i64, y: i64, w: i64, h: i64, fill: u32, opacity: u32 },
    /// A filled rectangle rotated by `angle` around its center.
    RotRect { x: i64, y: i64, w: i64, h: i64, angle: u32, fill: u32, opacity: u32 },
    /// A stroked line segment.
    Line { x1: i64, y1: i64, x2: i64, y2: i64, stroke: u32, width: i64, opacity: u32 },
    /// A filled closed path.
    FillPath { cmds: Vec<PathCmd>, fill: u32, opacity: u32 },
    /// A stroked open path.
    StrokePath { cmds: Vec<PathCmd>, stroke: u32, width: i64, opacity: u32, round_cap: bool },
    /// A full-canvas rectangle filled with a gradient.
    GradRect { w: i64, h: i64, grad: Gradient, opacity: u32 },
    /// An ellipse filled with a gradient.
    GradEllipse { cx: i64, cy: i64, rx: i64, ry: i64, grad: Gradient },
    /// A closed path filled with a gradient.
    GradPath { cmds: Vec<PathCmd>, grad: Gradient, opacity: u32 },
}

/// A vector document: the logical canvas size in whole pixels, an opaque
/// background fill beneath everything, and the ordered layer primitives.
pub struct Document {
    pub width: u32,
    pub height: u32,
    pub background: u32,
    pub layers: Vec<Primitive>,
}

/// Bound on the coordinate values a document may hold, far beyond any
/// canvas this crate produces; it keeps serialization free of overflow.
pub open spec fn val_wf(v: int) -> bool {
    -0x1000_0000_0000_0000 <= v <= 0x1000_0000_0000_0000
}

pub open spec fn pt_wf(p: Pt) -> bool {
    val_wf(p.x as int) && val_wf(p.y as int)
}

pub open spec fn cmd_wf(c: PathCmd) -> bool {
    match c {
        PathCmd::MoveTo { x, y } => val_wf(x as int) && val_wf(y as int),
        PathCmd::LineTo { x, y } => val_wf(x as int) && val_wf(y as int),
        PathCmd::CubicTo { x1, y1, x2, y2, x, y } => val_wf(x1 as int) && val_wf(y1 as int) && val_wf(x2 as int)
            && val_wf(y2 as int) && val_wf(x as int) && val_wf(y as int),
        PathCmd::Close => true,
    }
}

/// Whether a primitive's coordinates are all within serialization bounds.
pub open spec fn prim_wf(p: Primitive) -> bool {
    match p {
        Primitive::Polygon { points, .. } => forall|i: int|
            0 <= i < points@.len() ==> pt_wf(#[trigger] points@[i]),
        Primitive::Circle { cx, cy, r, .. } => val_wf(cx as int) && val_wf(cy as int) && val_wf(r as int),
        Primitive::Ring { cx, cy, r, width, .. } => val_wf(cx as int) && val_wf(cy as int) && val_wf(r as int)
            && val_wf(width as int),
        Primitive::Rect { x, y, w, h, .. } => val_wf(x as int) && val_wf(y as int) && 0 <= w
            && val_wf(w as int) && 0 <= h && val_wf(h as int),
        Primitive::RotRect { x, y, w, h, .. } => val_wf(x as int) && val_wf(y as int) && 0 <= w
            && val_wf(w as int) && 0 <= h && val_wf(h as int) && val_wf(x as int + w as int)
            && val_wf(y as int + h as int),
        Primitive::Line { x1, y1, x2, y2, width, .. } => val_wf(x1 as int) && val_wf(y1 as int) && val_wf(x2 as int)
            && val_wf(y2 as int) && val_wf(width as int),
        Primitive::FillPath { cmds, .. } => forall|i: int|
            0 <= i < cmds@.len() ==> cmd_wf(#[trigger] cmds@[i]),
        Primitive::StrokePath { cmds, width, .. } => val_wf(width as int) && forall|i: int|
            0 <= i < cmds@.len() ==> cmd_wf(#[trigger] cmds@[i]),
        Primitive::GradRect { w, h, .. } => val_wf(w as int) && val_wf(h as int),
        Primitive::GradEllipse { cx, cy, rx, ry, .. } => val_wf(cx as int) && val_wf(cy as int) && val_wf(rx as int)
            && val_wf(ry as int),
        Primitive::GradPath { cmds, .. } => forall|i: int|
            0 <= i < cmds@.len() ==> cmd_wf(#[trigger] cmds@[i]),
    }
}

/// Whether every layer of a document is within serialization bounds.
pub open spec fn doc_wf(d: Document) -> bool {
    forall|i: int| 0 <= i < d.layers@.len() ==> prim_wf(#[trigger] d.layers@[i])
}

/// The color a primitive is painted with, for solid-colored primitives.
pub open spec fn prim_color(p: Primitive) -> u32 {
    match p {
        Primitive::Polygon { fill, .. } => fill,
        Primitive::Circle { fill, .. } => fill,
        Primitive::Ring { stroke, .. } => stroke,
        Primitive::Rect { fill, .. } => fill,
        Primitive::RotRect { fill, .. } => fill,
        Primitive::Line { stroke, .. } => stroke,
        Primitive::FillPath { fill, .. } => fill,
        Primitive::StrokePath { stroke, .. } => stroke,
        Primitive::GradRect { .. } => 0,
        Primitive::GradEllipse { .. } => 0,
        Primitive::GradPath { .. } => 0,
    }
}

/// Whether every color of a gradient comes from `accents`.
pub open spec fn gradient_colors_from(g: Gradient, accents: Seq<u32>) -> bool {
    match g {
        Gradient::Linear { stops, .. } => forall|i: int|
            0 <= i < stops@.len() ==> accents.contains(#[trigger] stops@[i].color),
        Gradient::Radial { color, .. } => accents.contains(color),
    }
}

/// Whether every color a primitive paints with comes from `accents`.
pub open spec fn prim_colors_from(p: Primitive, accents: Seq<u32>) -> bool {
    match p {
        Primitive::GradRect { grad, .. } => gradient_colors_from(grad, accents),
        Primitive::GradEllipse { grad, .. } => gradient_colors_from(grad, accents),
        Primitive::GradPath { grad, .. } => gradient_colors_from(grad, accents),
        _ => accents.contains(prim_color(p)),
    }
}

} // verus!

use vstd::prelude::*;
use crate::doc::{Document, Gradient, PathCmd, Primitive, Pt, Stop, doc_wf, prim_wf, val_wf};

verus! {

// Serialization of a Document to SVG markup.  The exec serializer is
// proved to produce exactly the character sequence that the spec
// functions below describe, so the text handed to the rasterizer is
// pinned down by the document alone.

/// The decimal digit character for `d` in `0..=9`.
pub open spec fn digit_ch(d: int) -> char {
    if d == 0 { '0' }
    else if d == 1 { '1' }
    else if d == 2 { '2' }
    else if d == 3 { '3' }
    else if d == 4 { '4' }
    else if d == 5 { '5' }
    else if d == 6 { '6' }
    else if d == 7 { '7' }
    else if d == 8 { '8' }
    else { '9' }
}

/// The hexadecimal digit character for `d` in `0..=15`, lower case.
pub open spec fn hex_ch(d: int) -> char {
    if d < 10 { digit_ch(d) }
    else if d == 10 { 'a' }
    else if d == 11 { 'b' }
    else if d == 12 { 'c' }
    else if d == 13 { 'd' }
    else if d == 14 { 'e' }
    else { 'f' }
}

/// The decimal digits of the non-negative integer `n`.
pub open spec fn dec_chars(n: int) -> Seq<char>
    decreases n,
{
    if n < 10 {
        seq![digit_ch(n)]
    } else {
        dec_chars(n / 10).push(digit_ch(n % 10))
    }
}

/// A deci-pixel value printed with one decimal place, e.g. `-12.5`.
pub open spec fn deci_chars(v: int) -> Seq<char> {
    let a = if v < 0 { -v } else { v };
    (if v < 0 { seq!['-'] } else { Seq::<char>::empty() }) + dec_chars(a / 10) + seq!['.']
        + seq![digit_ch(a % 10)]
}

/// A centi value printed with two decimal places, e.g. `0.35`.
pub open spec fn centi_chars(c: int) -> Seq<char> {
    dec_chars(c / 100) + seq!['.'] + seq![digit_ch((c / 10) % 10)] + seq![digit_ch(c % 10)]
}

/// A packed `0xRRGGBB` color printed as `#rrggbb`.
pub open spec fn color_chars(c: int) -> Seq<char> {
    seq!['#'] + seq![hex_ch((c / 0x100000) % 16)] + seq![hex_ch((c / 0x10000) % 16)]
        + seq![hex_ch((c / 0x1000) % 16)] + seq![hex_ch((c / 0x100) % 16)]
        + seq![hex_ch((c / 0x10) % 16)] + seq![hex_ch(c % 16)]
}

/// Appends the digit character for `d`.
fn push_digit(out: &mut String, d: u64)
    requires
        d < 10,
    ensures
        final(out)@ == old(out)@ + seq![digit_ch(d as int)],
{
    if d == 0 { out.append("0"); proof { reveal_strlit("0"); assert("0"@ =~= seq![digit_ch(0)]); } }
    else if d == 1 { out.append("1"); proof { reveal_strlit("1"); assert("1"@ =~= seq![digit_ch(1)]); } }
    else if d == 2 { out.append("2"); proof { reveal_strlit("2"); assert("2"@ =~= seq![digit_ch(2)]); } }
    else if d == 3 { out.append("3"); proof { reveal_strlit("3"); assert("3"@ =~= seq![digit_ch(3)]); } }
    else if d == 4 { out.append("4"); proof { reveal_strlit("4"); assert("4"@ =~= seq![digit_ch(4)]); } }
    else if d == 5 { out.append("5"); proof { reveal_strlit("5"); assert("5"@ =~= seq![digit_ch(5)]); } }
    else if d == 6 { out.append("6"); proof { reveal_strlit("6"); assert("6"@ =~= seq![digit_ch(6)]); } }
    else if d == 7 { out.append("7"); proof { reveal_strlit("7"); assert("7"@ =~= seq![digit_ch(7)]); } }
    else if d == 8 { out.append("8"); proof { reveal_strlit("8"); assert("8"@ =~= seq![digit_ch(8)]); } }
    else { out.append("9"); proof { reveal_strlit("9"); assert("9"@ =~= seq![digit_ch(9)]); } }
}

/// Appends the hexadecimal digit character for `d`.
fn push_hex_digit(out: &mut String, d: u64)
    requires
        d < 16,
    ensures
        final(out)@ == old(out)@ + seq![hex_ch(d as int)],
{
    if d < 10 {
        push_digit(out, d);
    } else if d == 10 { out.append("a"); proof { reveal_strlit("a"); assert("a"@ =~= seq![hex_ch(10)]); } }
    else if d == 11 { out.append("b"); proof { reveal_strlit("b"); assert("b"@ =~= seq![hex_ch(11)]); } }
    else if d == 12 { out.append("c"); proof { reveal_strlit("c"); assert("c"@ =~= seq![hex_ch(12)]); } }
    else if d == 13 { out.append("d"); proof { reveal_strlit("d"); assert("d"@ =~= seq![hex_ch(13)]); } }
    else if d == 14 { out.append("e"); proof { reveal_strlit("e"); assert("e"@ =~= seq![hex_ch(14)]); } }
    else { out.append("f"); proof { reveal_strlit("f"); assert("f"@ =~= seq![hex_ch(15)]); } }
}

/// Appends the decimal digits of `n`.
fn push_dec(out: &mut String, n: u64)
    ensures
        final(out)@ == old(out)@ + dec_chars(n as int),
    decreases n,
{
    if n < 10 {
        push_digit(out, n);
    } else {
        push_dec(out, n / 10);
        push_digit(out, n % 10);
        proof {
            assert(final(out)@ =~= old(out)@ + dec_chars(n as int));
        }
    }
}

/// Appends a deci-pixel value with one decimal place.
fn push_deci(out: &mut String, v: i64)
    requires
        val_wf(v as int),
    ensures
        final(out)@ == old(out)@ + deci_chars(v as int),
{
    let a: i64 = if v < 0 {
        out.append("-");
        proof {
            reveal_strlit("-");
            assert("-"@ =~= seq!['-']);
        }
        -v
    } else {
        v
    };
    push_dec(out, (a / 10) as u64);
    out.append(".");
    proof {
        reveal_strlit(".");
        assert("."@ =~= seq!['.']);
    }
    push_digit(out, (a % 10) as u64);
    proof {
        assert(final(out)@ =~= old(out)@ + deci_chars(v as int));
    }
}

/// Appends a centi value with two decimal places.
fn push_centi(out: &mut String, c: u32)
    ensures
        final(out)@ == old(out)@ + centi_chars(c as int),
{
    push_dec(out, (c / 100) as u64);
    out.append(".");
    proof {
        reveal_strlit(".");
        assert("."@ =~= seq!['.']);
    }
    push_digit(out, ((c / 10) % 10) as u64);
    push_digit(out, (c % 10) as u64);
    proof {
        assert(final(out)@ =~= old(out)@ + centi_chars(c as int));
    }
}

/// Appends a color as `#rrggbb`.
fn push_color(out: &mut String, c: u32)
    ensures
        final(out)@ == old(out)@ + color_chars(c as int),
{
    out.append("#");
    proof {
        reveal_strlit("#");
        assert("#"@ =~= seq!['#']);
    }
    push_hex_digit(out, ((c / 0x100000) % 16) as u64);
    push_hex_digit(out, ((c / 0x10000) % 16) as u64);
    push_hex_digit(out, ((c / 0x1000) % 16) as u64);
    push_hex_digit(out, ((c / 0x100) % 16) as u64);
    push_hex_digit(out, ((c / 0x10) % 16) as u64);
    push_hex_digit(out, (c % 16) as u64);
    proof {
        assert(final(out)@ =~= old(out)@ + color_chars(c as int));
    }
}

/// Appends a string literal.
fn push_lit(out: &mut String, s: &str)
    ensures
        final(out)@ == old(out)@ + s@,
{
    out.append(s);
}

/// The text of the first `n` polygon points, separated by single spaces.
pub open spec fn points_prefix(ps: Seq<Pt>, n: int) -> Seq<char>
    decreases n,
{
    if n <= 0 {
        Seq::empty()
    } else if n == 1 {
        deci_chars(ps[0].x as int) + seq![','] + deci_chars(ps[0].y as int)
    } else {
        points_prefix(ps, n - 1) + seq![' '] + deci_chars(ps[n - 1].x as int) + seq![',']
            + deci_chars(ps[n - 1].y as int)
    }
}

fn push_points(out: &mut String, ps: &Vec<Pt>)
    requires
        forall|i: int| 0 <= i < ps@.len() ==> crate::doc::pt_wf(#[trigger] ps@[i]),
    ensures
        final(out)@ == old(out)@ + points_prefix(ps@, ps@.len() as int),
{
    let ghost orig = out@;
    let mut i: usize = 0;
    while i < ps.len()
        invariant
            i <= ps.len(),
            forall|j: int| 0 <= j < ps@.len() ==> crate::doc::pt_wf(#[trigger] ps@[j]),
            out@ == orig + points_prefix(ps@, i as int),
        decreases ps.len() - i,
    {
        if i > 0 {
            push_lit(out, " ");
            proof {
                reveal_strlit(" ");
                assert(" "@ =~= seq![' ']);
            }
        }
        push_deci(out, ps[i].x);
        push_lit(out, ",");
        proof {
            reveal_strlit(",");
            assert(","@ =~= seq![',']);
        }
        push_deci(out, ps[i].y);
        proof {
            assert(out@ =~= orig + points_prefix(ps@, i + 1));
        }
        i = i + 1;
    }
    proof {
        assert(out@ =~= old(out)@ + points_prefix(ps@, ps@.len() as int));
    }
}

/// The text of one path command.
pub open spec fn cmd_chars(c: PathCmd) -> Seq<char> {
    match c {
        PathCmd::MoveTo { x, y } => "M "@ + deci_chars(x as int) + seq![' '] + deci_chars(y as int),
        PathCmd::LineTo { x, y } => " L "@ + deci_chars(x as int) + seq![' '] + deci_chars(y as int),
        PathCmd::CubicTo { x1, y1, x2, y2, x, y } => " C "@ + deci_chars(x1 as int) + seq![' ']
            + deci_chars(y1 as int) + ", "@ + deci_chars(x2 as int) + seq![' ']
            + deci_chars(y2 as int) + ", "@ + deci_chars(x as int) + seq![' ']
            + deci_chars(y as int),
        PathCmd::Close => " Z"@,
    }
}

/// The text of the first `n` path commands.
pub open spec fn cmds_prefix(cs: Seq<PathCmd>, n: int) -> Seq<char>
    decreases n,
{
    if n <= 0 {
        Seq::empty()
    } else {
        cmds_prefix(cs, n - 1) + cmd_chars(cs[n - 1])
    }
}

fn push_cmd(out: &mut String, c: &PathCmd)
    requires
        crate::doc::cmd_wf(*c),
    ensures
        final(out)@ == old(out)@ + cmd_chars(*c),
{
    proof {
        reveal_strlit(" ");
        assert(" "@ =~= seq![' ']);
    }
    match c {
        PathCmd::MoveTo { x, y } => {
            push_lit(out, "M ");
            push_deci(out, *x);
            push_lit(out, " ");
            push_deci(out, *y);
            proof {
                assert(final(out)@ =~= old(out)@ + cmd_chars(*c));
            }
        },
        PathCmd::LineTo { x, y } => {
            push_lit(out, " L ");
            push_deci(out, *x);
            push_lit(out, " ");
            push_deci(out, *y);
            proof {
                assert(final(out)@ =~= old(out)@ + cmd_chars(*c));
            }
        },
        PathCmd::CubicTo { x1, y1, x2, y2, x, y } => {
            push_lit(out, " C ");
            push_deci(out, *x1);
            push_lit(out, " ");
            push_deci(out, *y1);
            push_lit(out, ", ");
            push_deci(out, *x2);
            push_lit(out, " ");
            push_deci(out, *y2);
            push_lit(out, ", ");
            push_deci(out, *x);
            push_lit(out, " ");
            push_deci(out, *y);
            proof {
                assert(final(out)@ =~= old(out)@ + cmd_chars(*c));
            }
        },
        PathCmd::Close => {
            push_lit(out, " Z");
        },
    }
}

fn push_cmds(out: &mut String, cs: &Vec<PathCmd>)
    requires
        forall|i: int| 0 <= i < cs@.len() ==> crate::doc::cmd_wf(#[trigger] cs@[i]),
    ensures
        final(out)@ == old(out)@ + cmds_prefix(cs@, cs@.len() as int),
{
    let ghost orig = out@;
    let mut i: usize = 0;
    while i < cs.len()
        invariant
            i <= cs.len(),
            forall|j: int| 0 <= j < cs@.len() ==> crate::doc::cmd_wf(#[trigger] cs@[j]),
            out@ == orig + cmds_prefix(cs@, i as int),
        decreases cs.len() - i,
    {
        push_cmd(out, &cs[i]);
        proof {
            assert(out@ =~= orig + cmds_prefix(cs@, i + 1));
        }
        i = i + 1;
    }
    proof {
        assert(out@ =~= old(out)@ + cmds_prefix(cs@, cs@.len() as int));
    }
}

/// The text of one gradient color stop.
pub open spec fn stop_chars(s: Stop) -> Seq<char> {
    "      <stop offset=\""@ + dec_chars(s.offset as int) + "%\" stop-color=\""@ + color_chars(
        s.color as int,
    ) + "\" stop-opacity=\""@ + centi_chars(s.opacity as int) + "\"/>\n"@
}

/// The text of the first `n` gradient stops.
pub open spec fn stops_prefix(ss: Seq<Stop>, n: int) -> Seq<char>
    decreases n,
{
    if n <= 0 {
        Seq::empty()
    } else {
        stops_prefix(ss, n - 1) + stop_chars(ss[n - 1])
    }
}

fn push_stops(out: &mut String, ss: &Vec<Stop>)
    ensures
        final(out)@ == old(out)@ + stops_prefix(ss@, ss@.len() as int),
{
    let ghost orig = out@;
    let mut i: usize = 0;
    while i < ss.len()
        invariant
            i <= ss.len(),
            out@ == orig + stops_prefix(ss@, i as int),
        decreases ss.len() - i,
    {
        push_lit(out, "      <stop offset=\"");
        push_dec(out, ss[i].offset as u64);
        push_lit(out, "%\" stop-color=\"");
        push_color(out, ss[i].color);
        push_lit(out, "\" stop-opacity=\"");
        push_centi(out, ss[i].opacity);
        push_lit(out, "\"/>\n");
        proof {
            assert(out@ =~= orig + stops_prefix(ss@, i + 1));
        }
        i = i + 1;
    }
}

/// The `<defs>` block that declares a gradient under the id `grad<idx>`.
pub open spec fn grad_chars(g: Gradient, idx: int) -> Seq<char> {
    match g {
        Gradient::Linear { x1, y1, x2, y2, stops } => "  <defs><linearGradient id=\"grad"@
            + dec_chars(idx) + "\" x1=\""@ + dec_chars(x1 as int) + "%\" y1=\""@ + dec_chars(
            y1 as int,
        ) + "%\" x2=\""@ + dec_chars(x2 as int) + "%\" y2=\""@ + dec_chars(y2 as int) + "%\">\n"@
            + stops_prefix(stops@, stops@.len() as int) + "    </linearGradient></defs>\n"@,
        Gradient::Radial { cx, cy, r, color, op_in, op_out } => "  <defs><radialGradient id=\"grad"@
            + dec_chars(idx) + "\" cx=\""@ + dec_chars(cx as int) + "%\" cy=\""@ + dec_chars(
            cy as int,
        ) + "%\" r=\""@ + dec_chars(r as int) + "%\">\n      <stop offset=\"0%\" stop-color=\""@
            + color_chars(color as int) + "\" stop-opacity=\""@ + centi_chars(op_in as int)
            + "\"/>\n      <stop offset=\"100%\" stop-color=\""@ + color_chars(color as int)
            + "\" stop-opacity=\""@ + centi_chars(op_out as int)
            + "\"/>\n    </radialGradient></defs>\n"@,
    }
}

/// The paint reference `url(#grad<idx>)`.
pub open spec fn grad_url_chars(idx: int) -> Seq<char> {
    "url(#grad"@ + dec_chars(idx) + seq![')']
}

#[verifier::rlimit(100)]
fn push_grad(out: &mut String, g: &Gradient, idx: usize)
    ensures
        final(out)@ == old(out)@ + grad_chars(*g, idx as int),
{
    match g {
        Gradient::Linear { x1, y1, x2, y2, stops } => {
            push_lit(out, "  <defs><linearGradient id=\"grad");
            push_dec(out, idx as u64);
            push_lit(out, "\" x1=\"");
            push_dec(out, *x1 as u64);
            push_lit(out, "%\" y1=\"");
            push_dec(out, *y1 as u64);
            push_lit(out, "%\" x2=\"");
            push_dec(out, *x2 as u64);
            push_lit(out, "%\" y2=\"");
            push_dec(out, *y2 as u64);
            push_lit(out, "%\">\n");
            push_stops(out, stops);
            push_lit(out, "    </linearGradient></defs>\n");
            proof {
                assert(final(out)@ =~= old(out)@ + grad_chars(*g, idx as int));
            }
        },
        Gradient::Radial { cx, cy, r, color, op_in, op_out } => {
            push_lit(out, "  <defs><radialGradient id=\"grad");
            push_dec(out, idx as u64);
            push_lit(out, "\" cx=\"");
            push_dec(out, *cx as u64);
            push_lit(out, "%\" cy=\"");
            push_dec(out, *cy as u64);
            push_lit(out, "%\" r=\"");
            push_dec(out, *r as u64);
            push_lit(out, "%\">\n      <stop offset=\"0%\" stop-color=\"");
            push_color(out, *color);
            push_lit(out, "\" stop-opacity=\"");
            push_centi(out, *op_in);
            push_lit(out, "\"/>\n      <stop offset=\"100%\" stop-color=\"");
            push_color(out, *color);
            push_lit(out, "\" stop-opacity=\"");
            push_centi(out, *op_out);
            push_lit(out, "\"/>\n    </radialGradient></defs>\n");
            proof {
                assert(final(out)@ =~= old(out)@ + grad_chars(*g, idx as int));
            }
        },
    }
}

fn push_grad_url(out: &mut String, idx: usize)
    ensures
        final(out)@ == old(out)@ + grad_url_chars(idx as int),
{
    push_lit(out, "url(#grad");
    push_dec(out, idx as u64);
    push_lit(out, ")");
    proof {
        reveal_strlit(")");
        assert(")"@ =~= seq![')']);
        assert(final(out)@ =~= old(out)@ + grad_url_chars(idx as int));
    }
}

/// The markup of each primitive variant, named per variant.
pub open spec fn polygon_chars(points: Seq<Pt>, fill: u32, opacity: u32) -> Seq<char> {
    "  <polygon points=\""@ + points_prefix(points, points.len() as int) + "\" fill=\""@
        + color_chars(fill as int) + "\" opacity=\""@ + centi_chars(opacity as int) + "\"/>\n"@
}

pub open spec fn circle_chars(cx: int, cy: int, r: int, fill: u32, opacity: u32) -> Seq<char> {
    "  <circle cx=\""@ + deci_chars(cx) + "\" cy=\""@ + deci_chars(cy) + "\" r=\""@ + deci_chars(r)
        + "\" fill=\""@ + color_chars(fill as int) + "\" opacity=\""@ + centi_chars(opacity as int)
        + "\"/>\n"@
}

pub open spec fn ring_chars(cx: int, cy: int, r: int, stroke: u32, width: int, opacity: u32) -> Seq<
    char,
> {
    "  <circle cx=\""@ + deci_chars(cx) + "\" cy=\""@ + deci_chars(cy) + "\" r=\""@ + deci_chars(r)
        + "\" fill=\"none\" stroke=\""@ + color_chars(stroke as int) + "\" stroke-width=\""@
        + deci_chars(width) + "\" opacity=\""@ + centi_chars(opacity as int) + "\"/>\n"@
}

pub open spec fn rect_chars(x: int, y: int, w: int, h: int, fill: u32, opacity: u32) -> Seq<char> {
    "  <rect x=\""@ + deci_chars(x) + "\" y=\""@ + deci_chars(y) + "\" width=\""@ + deci_chars(w)
        + "\" height=\""@ + deci_chars(h) + "\" fill=\""@ + color_chars(fill as int)
        + "\" opacity=\""@ + centi_chars(opacity as int) + "\"/>\n"@
}

pub open spec fn rotrect_chars(x: int, y: int, w: int, h: int, angle: u32, fill: u32, opacity: u32) -> Seq<char> {
    "  <rect x=\""@ + deci_chars(x) + "\" y=\""@ + deci_chars(y) + "\" width=\""@ + deci_chars(w)
        + "\" height=\""@ + deci_chars(h) + "\" fill=\""@ + color_chars(fill as int)
        + "\" opacity=\""@ + centi_chars(opacity as int) + "\" transform=\"rotate("@ + deci_chars(
        angle as int,
    ) + seq![' '] + deci_chars(x + w / 2) + seq![' '] + deci_chars(y + h / 2) + ")\"/>\n"@
}

pub open spec fn line_chars(x1: int, y1: int, x2: int, y2: int, stroke: u32, width: int, opacity: u32) -> Seq<char> {
    "  <line x1=\""@ + deci_chars(x1) + "\" y1=\""@ + deci_chars(y1) + "\" x2=\""@ + deci_chars(x2)
        + "\" y2=\""@ + deci_chars(y2) + "\" stroke=\""@ + color_chars(stroke as int)
        + "\" stroke-width=\""@ + deci_chars(width) + "\" opacity=\""@ + centi_chars(opacity as int)
        + "\"/>\n"@
}

pub open spec fn fillpath_chars(cmds: Seq<PathCmd>, fill: u32, opacity: u32) -> Seq<char> {
    "  <path d=\""@ + cmds_prefix(cmds, cmds.len() as int) + "\" fill=\""@ + color_chars(fill as int)
        + "\" opacity=\""@ + centi_chars(opacity as int) + "\"/>\n"@
}

pub open spec fn strokepath_chars(cmds: Seq<PathCmd>, stroke: u32, width: int, opacity: u32, round_cap: bool) -> Seq<char> {
    "  <path d=\""@ + cmds_prefix(cmds, cmds.len() as int) + "\" fill=\"none\" stroke=\""@
        + color_chars(stroke as int) + "\" stroke-width=\""@ + deci_chars(width) + "\" opacity=\""@
        + centi_chars(opacity as int) + "\""@ + (if round_cap {
        " stroke-linecap=\"round\""@
    } else {
        Seq::<char>::empty()
    }) + "/>\n"@
}

pub open spec fn gradrect_chars(w: int, h: int, grad: Gradient, opacity: u32, idx: int) -> Seq<char> {
    grad_chars(grad, idx) + "  <rect width=\""@ + deci_chars(w) + "\" height=\""@ + deci_chars(h)
        + "\" fill=\""@ + grad_url_chars(idx) + "\" opacity=\""@ + centi_chars(opacity as int)
        + "\"/>\n"@
}

pub open spec fn gradellipse_chars(cx: int, cy: int, rx: int, ry: int, grad: Gradient, idx: int) -> Seq<char> {
    grad_chars(grad, idx) + "  <ellipse cx=\""@ + deci_chars(cx) + "\" cy=\""@ + deci_chars(cy)
        + "\" rx=\""@ + deci_chars(rx) + "\" ry=\""@ + deci_chars(ry) + "\" fill=\""@
        + grad_url_chars(idx) + "\"/>\n"@
}

pub open spec fn gradpath_chars(cmds: Seq<PathCmd>, grad: Gradient, opacity: u32, idx: int) -> Seq<char> {
    grad_chars(grad, idx) + "  <path d=\""@ + cmds_prefix(cmds, cmds.len() as int) + "\" fill=\""@
        + grad_url_chars(idx) + "\" opacity=\""@ + centi_chars(opacity as int) + "\"/>\n"@
}

/// The markup of one primitive.  `idx` is the primitive's position among
/// the document layers; it numbers the gradient definition the primitive
/// may carry, so ids never collide.
pub open spec fn prim_chars(p: Primitive, idx: int) -> Seq<char> {
    match p {
        Primitive::Polygon { points, fill, opacity } => polygon_chars(points@, fill, opacity),
        Primitive::Circle { cx, cy, r, fill, opacity } => circle_chars(
            cx as int,
            cy as int,
            r as int,
            fill,
            opacity,
        ),
        Primitive::Ring { cx, cy, r, stroke, width, opacity } => ring_chars(
            cx as int,
            cy as int,
            r as int,
            stroke,
            width as int,
            opacity,
        ),
        Primitive::Rect { x, y, w, h, fill, opacity } => rect_chars(
            x as int,
            y as int,
            w as int,
            h as int,
            fill,
            opacity,
        ),
        Primitive::RotRect { x, y, w, h, angle, fill, opacity } => rotrect_chars(
            x as int,
            y as int,
            w as int,
            h as int,
            angle,
            fill,
            opacity,
        ),
        Primitive::Line { x1, y1, x2, y2, stroke, width, opacity } => line_chars(
            x1 as int,
            y1 as int,
            x2 as int,
            y2 as int,
            stroke,
            width as int,
            opacity,
        ),
        Primitive::FillPath { cmds, fill, opacity } => fillpath_chars(cmds@, fill, opacity),
        Primitive::StrokePath { cmds, stroke, width, opacity, round_cap } => strokepath_chars(
            cmds@,
            stroke,
            width as int,
            opacity,
            round_cap,
        ),
        Primitive::GradRect { w, h, grad, opacity } => gradrect_chars(
            w as int,
            h as int,
            grad,
            opacity,
            idx,
        ),
        Primitive::GradEllipse { cx, cy, rx, ry, grad } => gradellipse_chars(
            cx as int,
            cy as int,
            rx as int,
            ry as int,
            grad,
            idx,
        ),
        Primitive::GradPath { cmds, grad, opacity } => gradpath_chars(cmds@, grad, opacity, idx),
    }
}

#[verifier::rlimit(100)]
fn push_polygon(out: &mut String, points: &Vec<Pt>, fill: u32, opacity: u32)
    requires
        forall|i: int| 0 <= i < points@.len() ==> crate::doc::pt_wf(#[trigger] points@[i]),
    ensures
        final(out)@ == old(out)@ + polygon_chars(points@, fill, opacity),
{
    push_lit(out, "  <polygon points=\"");
    push_points(out, points);
    push_lit(out, "\" fill=\"");
    push_color(out, fill);
    push_lit(out, "\" opacity=\"");
    push_centi(out, opacity);
    push_lit(out, "\"/>\n");
    proof {
        assert(final(out)@ =~= old(out)@ + polygon_chars(points@, fill, opacity));
    }
}

#[verifier::rlimit(100)]
fn push_circle(out: &mut String, cx: i64, cy: i64, r: i64, fill: u32, opacity: u32)
    requires
        val_wf(cx as int) && val_wf(cy as int) && val_wf(r as int),
    ensures
        final(out)@ == old(out)@ + circle_chars(cx as int, cy as int, r as int, fill, opacity),
{
    push_lit(out, "  <circle cx=\"");
    push_deci(out, cx);
    push_lit(out, "\" cy=\"");
    push_deci(out, cy);
    push_lit(out, "\" r=\"");
    push_deci(out, r);
    push_lit(out, "\" fill=\"");
    push_color(out, fill);
    push_lit(out, "\" opacity=\"");
    push_centi(out, opacity);
    push_lit(out, "\"/>\n");
    proof {
        assert(final(out)@ =~= old(out)@ + circle_chars(cx as int, cy as int, r as int, fill, opacity));
    }
}

#[verifier::rlimit(100)]
fn push_ring(out: &mut String, cx: i64, cy: i64, r: i64, stroke: u32, width: i64, opacity: u32)
    requires
        val_wf(cx as int) && val_wf(cy as int) && val_wf(r as int) && val_wf(width as int),
    ensures
        final(out)@ == old(out)@ + ring_chars(cx as int, cy as int, r as int, stroke, width as int, opacity),
{
    push_lit(out, "  <circle cx=\"");
    push_deci(out, cx);
    push_lit(out, "\" cy=\"");
    push_deci(out, cy);
    push_lit(out, "\" r=\"");
    push_deci(out, r);
    push_lit(out, "\" fill=\"none\" stroke=\"");
    push_color(out, stroke);
    push_lit(out, "\" stroke-width=\"");
    push_deci(out, width);
    push_lit(out, "\" opacity=\"");
    push_centi(out, opacity);
    push_lit(out, "\"/>\n");
    proof {
        assert(final(out)@ =~= old(out)@ + ring_chars(cx as int, cy as int, r as int, stroke, width as int, opacity));
    }
}

#[verifier::rlimit(100)]
fn push_rect(out: &mut String, x: i64, y: i64, w: i64, h: i64, fill: u32, opacity: u32)
    requires
        val_wf(x as int) && val_wf(y as int) && val_wf(w as int) && val_wf(h as int),
    ensures
        final(out)@ == old(out)@ + rect_chars(x as int, y as int, w as int, h as int, fill, opacity),
{
    push_lit(out, "  <rect x=\"");
    push_deci(out, x);
    push_lit(out, "\" y=\"");
    push_deci(out, y);
    push_lit(out, "\" width=\"");
    push_deci(out, w);
    push_lit(out, "\" height=\"");
    push_deci(out, h);
    push_lit(out, "\" fill=\"");
    push_color(out, fill);
    push_lit(out, "\" opacity=\"");
    push_centi(out, opacity);
    push_lit(out, "\"/>\n");
    proof {
        assert(final(out)@ =~= old(out)@ + rect_chars(x as int, y as int, w as int, h as int, fill, opacity));
    }
}

#[verifier::rlimit(100)]
fn push_rotrect(
    out: &mut String,
    x: i64,
    y: i64,
    w: i64,
    h: i64,
    angle: u32,
    fill: u32,
    opacity: u32,
)
    requires
        val_wf(x as int) && val_wf(y as int) && 0 <= w && val_wf(w as int) && 0 <= h && val_wf(
            h as int,
        ) && val_wf(x as int + w as int) && val_wf(y as int + h as int),
    ensures
        final(out)@ == old(out)@ + rotrect_chars(x as int, y as int, w as int, h as int, angle, fill, opacity),
{
    push_lit(out, "  <rect x=\"");
    push_deci(out, x);
    push_lit(out, "\" y=\"");
    push_deci(out, y);
    push_lit(out, "\" width=\"");
    push_deci(out, w);
    push_lit(out, "\" height=\"");
    push_deci(out, h);
    push_lit(out, "\" fill=\"");
    push_color(out, fill);
    push_lit(out, "\" opacity=\"");
    push_centi(out, opacity);
    push_lit(out, "\" transform=\"rotate(");
    push_deci(out, angle as i64);
    push_lit(out, " ");
    proof {
        reveal_strlit(" ");
        assert(" "@ =~= seq![' ']);
    }
    push_deci(out, x + w / 2);
    push_lit(out, " ");
    push_deci(out, y + h / 2);
    push_lit(out, ")\"/>\n");
    proof {
        assert(final(out)@ =~= old(out)@ + rotrect_chars(x as int, y as int, w as int, h as int, angle, fill, opacity));
    }
}

#[verifier::rlimit(100)]
fn push_line(
    out: &mut String,
    x1: i64,
    y1: i64,
    x2: i64,
    y2: i64,
    stroke: u32,
    width: i64,
    opacity: u32,
)
    requires
        val_wf(x1 as int) && val_wf(y1 as int) && val_wf(x2 as int) && val_wf(y2 as int) && val_wf(
            width as int,
        ),
    ensures
        final(out)@ == old(out)@ + line_chars(x1 as int, y1 as int, x2 as int, y2 as int, stroke, width as int, opacity),
{
    push_lit(out, "  <line x1=\"");
    push_deci(out, x1);
    push_lit(out, "\" y1=\"");
    push_deci(out, y1);
    push_lit(out, "\" x2=\"");
    push_deci(out, x2);
    push_lit(out, "\" y2=\"");
    push_deci(out, y2);
    push_lit(out, "\" stroke=\"");
    push_color(out, stroke);
    push_lit(out, "\" stroke-width=\"");
    push_deci(out, width);
    push_lit(out, "\" opacity=\"");
    push_centi(out, opacity);
    push_lit(out, "\"/>\n");
    proof {
        assert(final(out)@ =~= old(out)@ + line_chars(x1 as int, y1 as int, x2 as int, y2 as int, stroke, width as int, opacity));
    }
}

#[verifier::rlimit(100)]
fn push_fillpath(out: &mut String, cmds: &Vec<PathCmd>, fill: u32, opacity: u32)
    requires
        forall|i: int| 0 <= i < cmds@.len() ==> crate::doc::cmd_wf(#[trigger] cmds@[i]),
    ensures
        final(out)@ == old(out)@ + fillpath_chars(cmds@, fill, opacity),
{
    push_lit(out, "  <path d=\"");
    push_cmds(out, cmds);
    push_lit(out, "\" fill=\"");
    push_color(out, fill);
    push_lit(out, "\" opacity=\"");
    push_centi(out, opacity);
    push_lit(out, "\"/>\n");
    proof {
        assert(final(out)@ =~= old(out)@ + fillpath_chars(cmds@, fill, opacity));
    }
}

#[verifier::rlimit(100)]
fn push_strokepath(
    out: &mut String,
    cmds: &Vec<PathCmd>,
    stroke: u32,
    width: i64,
    opacity: u32,
    round_cap: bool,
)
    requires
        val_wf(width as int),
        forall|i: int| 0 <= i < cmds@.len() ==> crate::doc::cmd_wf(#[trigger] cmds@[i]),
    ensures
        final(out)@ == old(out)@ + strokepath_chars(cmds@, stroke, width as int, opacity, round_cap),
{
    push_lit(out, "  <path d=\"");
    push_cmds(out, cmds);
    push_lit(out, "\" fill=\"none\" stroke=\"");
    push_color(out, stroke);
    push_lit(out, "\" stroke-width=\"");
    push_deci(out, width);
    push_lit(out, "\" opacity=\"");
    push_centi(out, opacity);
    push_lit(out, "\"");
    if round_cap {
        push_lit(out, " stroke-linecap=\"round\"");
    }
    push_lit(out, "/>\n");
    proof {
        assert(final(out)@ =~= old(out)@ + strokepath_chars(cmds@, stroke, width as int, opacity, round_cap));
    }
}

#[verifier::rlimit(100)]
fn push_gradrect(out: &mut String, w: i64, h: i64, grad: &Gradient, opacity: u32, idx: usize)
    requires
        val_wf(w as int) && val_wf(h as int),
    ensures
        final(out)@ == old(out)@ + gradrect_chars(w as int, h as int, *grad, opacity, idx as int),
{
    push_grad(out, grad, idx);
    push_lit(out, "  <rect width=\"");
    push_deci(out, w);
    push_lit(out, "\" height=\"");
    push_deci(out, h);
    push_lit(out, "\" fill=\"");
    push_grad_url(out, idx);
    push_lit(out, "\" opacity=\"");
    push_centi(out, opacity);
    push_lit(out, "\"/>\n");
    proof {
        assert(final(out)@ =~= old(out)@ + gradrect_chars(w as int, h as int, *grad, opacity, idx as int));
    }
}

#[verifier::rlimit(100)]
fn push_gradellipse(out: &mut String, cx: i64, cy: i64, rx: i64, ry: i64, grad: &Gradient, idx: usize)
    requires
        val_wf(cx as int) && val_wf(cy as int) && val_wf(rx as int) && val_wf(ry as int),
    ensures
        final(out)@ == old(out)@ + gradellipse_chars(cx as int, cy as int, rx as int, ry as int, *grad, idx as int),
{
    push_grad(out, grad, idx);
    push_lit(out, "  <ellipse cx=\"");
    push_deci(out, cx);
    push_lit(out, "\" cy=\"");
    push_deci(out, cy);
    push_lit(out, "\" rx=\"");
    push_deci(out, rx);
    push_lit(out, "\" ry=\"");
    push_deci(out, ry);
    push_lit(out, "\" fill=\"");
    push_grad_url(out, idx);
    push_lit(out, "\"/>\n");
    proof {
        assert(final(out)@ =~= old(out)@ + gradellipse_chars(cx as int, cy as int, rx as int, ry as int, *grad, idx as int));
    }
}

#[verifier::rlimit(100)]
fn push_gradpath(out: &mut String, cmds: &Vec<PathCmd>, grad: &Gradient, opacity: u32, idx: usize)
    requires
        forall|i: int| 0 <= i < cmds@.len() ==> crate::doc::cmd_wf(#[trigger] cmds@[i]),
    ensures
        final(out)@ == old(out)@ + gradpath_chars(cmds@, *grad, opacity, idx as int),
{
    push_grad(out, grad, idx);
    push_lit(out, "  <path d=\"");
    push_cmds(out, cmds);
    push_lit(out, "\" fill=\"");
    push_grad_url(out, idx);
    push_lit(out, "\" opacity=\"");
    push_centi(out, opacity);
    push_lit(out, "\"/>\n");
    proof {
        assert(final(out)@ =~= old(out)@ + gradpath_chars(cmds@, *grad, opacity, idx as int));
    }
}

#[verifier::rlimit(100)]
fn push_prim(out: &mut String, p: &Primitive, idx: usize)
    requires
        prim_wf(*p),
    ensures
        final(out)@ == old(out)@ + prim_chars(*p, idx as int),
{
    match p {
        Primitive::Polygon { points, fill, opacity } => {
            push_polygon(out, points, *fill, *opacity);
        },
        Primitive::Circle { cx, cy, r, fill, opacity } => {
            push_circle(out, *cx, *cy, *r, *fill, *opacity);
        },
        Primitive::Ring { cx, cy, r, stroke, width, opacity } => {
            push_ring(out, *cx, *cy, *r, *stroke, *width, *opacity);
        },
        Primitive::Rect { x, y, w, h, fill, opacity } => {
            push_rect(out, *x, *y, *w, *h, *fill, *opacity);
        },
        Primitive::RotRect { x, y, w, h, angle, fill, opacity } => {
            push_rotrect(out, *x, *y, *w, *h, *angle, *fill, *opacity);
        },
        Primitive::Line { x1, y1, x2, y2, stroke, width, opacity } => {
            push_line(out, *x1, *y1, *x2, *y2, *stroke, *width, *opacity);
        },
        Primitive::FillPath { cmds, fill, opacity } => {
            push_fillpath(out, cmds, *fill, *opacity);
        },
        Primitive::StrokePath { cmds, stroke, width, opacity, round_cap } => {
            push_strokepath(out, cmds, *stroke, *width, *opacity, *round_cap);
        },
        Primitive::GradRect { w, h, grad, opacity } => {
            push_gradrect(out, *w, *h, grad, *opacity, idx);
        },
        Primitive::GradEllipse { cx, cy, rx, ry, grad } => {
            push_gradellipse(out, *cx, *cy, *rx, *ry, grad, idx);
        },
        Primitive::GradPath { cmds, grad, opacity } => {
            push_gradpath(out, cmds, grad, *opacity, idx);
        },
    }
}

/// The document preamble: the svg element sized to the logical canvas and
/// the opaque background rectangle beneath all layers.
pub open spec fn header_chars(w: int, h: int, bg: int) -> Seq<char> {
    "<svg xmlns=\"http://www.w3.org/2000/svg\" viewBox=\"0 0 "@ + dec_chars(w) + seq![' ']
        + dec_chars(h) + "\" width=\""@ + dec_chars(w) + "\" height=\""@ + dec_chars(h) + "\">\n"@
        + "  <rect width=\""@ + dec_chars(w) + "\" height=\""@ + dec_chars(h) + "\" fill=\""@
        + color_chars(bg) + "\"/>\n"@
}

/// The markup of the first `n` layers.
pub open spec fn layers_prefix(ls: Seq<Primitive>, n: int) -> Seq<char>
    decreases n,
{
    if n <= 0 {
        Seq::empty()
    } else {
        layers_prefix(ls, n - 1) + prim_chars(ls[n - 1], n - 1)
    }
}

/// The complete markup of a document.
pub open spec fn doc_chars(d: Document) -> Seq<char> {
    header_chars(d.width as int, d.height as int, d.background as int) + layers_prefix(
        d.layers@,
        d.layers@.len() as int,
    ) + "</svg>\n"@
}

/// Serializes a document to SVG markup; the output is exactly the
/// character sequence `doc_chars` describes.
pub fn svg_text(d: &Document) -> (s: String)
    requires
        doc_wf(*d),
    ensures
        s@ == doc_chars(*d),
{
    let mut out = String::new();
    push_lit(&mut out, "<svg xmlns=\"http://www.w3.org/2000/svg\" viewBox=\"0 0 ");
    push_dec(&mut out, d.width as u64);
    push_lit(&mut out, " ");
    proof {
        reveal_strlit(" ");
        assert(" "@ =~= seq![' ']);
    }
    push_dec(&mut out, d.height as u64);
    push_lit(&mut out, "\" width=\"");
    push_dec(&mut out, d.width as u64);
    push_lit(&mut out, "\" height=\"");
    push_dec(&mut out, d.height as u64);
    push_lit(&mut out, "\">\n");
    push_lit(&mut out, "  <rect width=\"");
    push_dec(&mut out, d.width as u64);
    push_lit(&mut out, "\" height=\"");
    push_dec(&mut out, d.height as u64);
    push_lit(&mut out, "\" fill=\"");
    push_color(&mut out, d.background);
    push_lit(&mut out, "\"/>\n");
    let ghost hdr = header_chars(d.width as int, d.height as int, d.background as int);
    proof {
        assert(out@ =~= hdr);
    }
    let mut i: usize = 0;
    while i < d.layers.len()
        invariant
            i <= d.layers.len(),
            doc_wf(*d),
            hdr == header_chars(d.width as int, d.height as int, d.background as int),
            out@ == hdr + layers_prefix(d.layers@, i as int),
        decreases d.layers.len() - i,
    {
        push_prim(&mut out, &d.layers[i], i);
        proof {
            assert(out@ =~= hdr + layers_prefix(d.layers@, i + 1));
        }
        i = i + 1;
    }
    push_lit(&mut out, "</svg>\n");
    proof {
        assert(out@ =~= doc_chars(*d));
    }
    out
}

} // verus!


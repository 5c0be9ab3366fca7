use vstd::prelude::*;

verus! {

/// The pixel geometry of one monitor inside the virtual desktop.
#[derive(Clone, Copy, PartialEq, Eq, Structural, Debug)]
pub struct MonitorGeom {
    pub width: u32,
    pub height: u32,
    pub x: i32,
    pub y: i32,
}

/// The smallest x coordinate covered, starting from the origin, over the
/// first `n` monitors.
pub open spec fn spec_min_x(ms: Seq<MonitorGeom>, n: int) -> int
    decreases n,
{
    if n <= 0 {
        0
    } else {
        let prev = spec_min_x(ms, n - 1);
        if ms[n - 1].x < prev {
            ms[n - 1].x as int
        } else {
            prev
        }
    }
}

pub open spec fn spec_min_y(ms: Seq<MonitorGeom>, n: int) -> int
    decreases n,
{
    if n <= 0 {
        0
    } else {
        let prev = spec_min_y(ms, n - 1);
        if ms[n - 1].y < prev {
            ms[n - 1].y as int
        } else {
            prev
        }
    }
}

/// The greatest right edge covered, starting from the origin.
pub open spec fn spec_max_x(ms: Seq<MonitorGeom>, n: int) -> int
    decreases n,
{
    if n <= 0 {
        0
    } else {
        let prev = spec_max_x(ms, n - 1);
        let edge = ms[n - 1].x + ms[n - 1].width;
        if edge > prev {
            edge
        } else {
            prev
        }
    }
}

pub open spec fn spec_max_y(ms: Seq<MonitorGeom>, n: int) -> int
    decreases n,
{
    if n <= 0 {
        0
    } else {
        let prev = spec_max_y(ms, n - 1);
        let edge = ms[n - 1].y + ms[n - 1].height;
        if edge > prev {
            edge
        } else {
            prev
        }
    }
}

/// Saturates a span at the u32 range.
pub open spec fn spec_span_u32(v: int) -> int {
    if v > 0xFFFF_FFFF {
        0xFFFF_FFFF
    } else if v < 0 {
        0
    } else {
        v
    }
}

/// The size of the virtual desktop's bounding box: greatest covered
/// edge minus smallest covered coordinate, per axis, origin included,
/// saturated at the u32 range.
pub open spec fn spec_layout_size(ms: Seq<MonitorGeom>) -> (int, int) {
    (
        spec_span_u32(spec_max_x(ms, ms.len() as int) - spec_min_x(ms, ms.len() as int)),
        spec_span_u32(spec_max_y(ms, ms.len() as int) - spec_min_y(ms, ms.len() as int)),
    )
}

/// Computes the bounding-box size of the monitor layout, in pixels.
pub fn layout_size(ms: &Vec<MonitorGeom>) -> (r: (u32, u32))
    ensures
        r.0 == spec_layout_size(ms@).0,
        r.1 == spec_layout_size(ms@).1,
{
    let mut min_x: i64 = 0;
    let mut min_y: i64 = 0;
    let mut max_x: i64 = 0;
    let mut max_y: i64 = 0;
    let mut i: usize = 0;
    while i < ms.len()
        invariant
            i <= ms.len(),
            min_x == spec_min_x(ms@, i as int),
            min_y == spec_min_y(ms@, i as int),
            max_x == spec_max_x(ms@, i as int),
            max_y == spec_max_y(ms@, i as int),
            -0x8000_0000 <= min_x <= 0,
            -0x8000_0000 <= min_y <= 0,
            0 <= max_x <= 0x1_8000_0000,
            0 <= max_y <= 0x1_8000_0000,
        decreases ms.len() - i,
    {
        let m = ms[i];
        if (m.x as i64) < min_x {
            min_x = m.x as i64;
        }
        if (m.y as i64) < min_y {
            min_y = m.y as i64;
        }
        let edge_x = m.x as i64 + m.width as i64;
        if edge_x > max_x {
            max_x = edge_x;
        }
        let edge_y = m.y as i64 + m.height as i64;
        if edge_y > max_y {
            max_y = edge_y;
        }
        i = i + 1;
    }
    let span_x: i64 = max_x - min_x;
    let span_y: i64 = max_y - min_y;
    let rx: u32 = if span_x > 0xFFFF_FFFF {
        u32::MAX
    } else {
        span_x as u32
    };
    let ry: u32 = if span_y > 0xFFFF_FFFF {
        u32::MAX
    } else {
        span_y as u32
    };
    (rx, ry)
}

} // verus!

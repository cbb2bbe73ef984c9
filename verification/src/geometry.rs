//! Rectangles and the arithmetic that places floating windows inside an
//! output. Coordinates are `i32` as on the wire; intermediate sums are taken
//! in `i64` and saturate back into `i32`, so no input can overflow.

use vstd::prelude::*;

verus! {

/// An axis-aligned rectangle in global (layout) coordinates.
#[derive(Clone, Copy, Debug, PartialEq, Eq, Structural)]
pub struct Rect {
    pub x: i32,
    pub y: i32,
    pub width: i32,
    pub height: i32,
}

/// Pixels a floating window moves per keyboard step.
pub const FLOATING_MOVE_STEP: i32 = 20;

/// `v` clamped into the range of `i32`.
pub open spec fn spec_sat(v: int) -> int {
    if v < i32::MIN { i32::MIN as int } else if v > i32::MAX { i32::MAX as int } else { v }
}

/// Saturating conversion from `i64` to `i32`.
pub fn sat(v: i64) -> (r: i32)
    ensures
        r == spec_sat(v as int),
{
    if v < i32::MIN as i64 {
        i32::MIN
    } else if v > i32::MAX as i64 {
        i32::MAX
    } else {
        v as i32
    }
}

/// `v` clamped into `[lo, hi]`; where `hi < lo` the lower bound wins
/// (as `max(lo, min(v, hi))`).
pub open spec fn spec_clamp(v: int, lo: int, hi: int) -> int {
    if v > hi {
        if hi < lo { lo } else { hi }
    } else if v < lo {
        lo
    } else {
        v
    }
}

/// Clamp without the panic of `i32::clamp` when `hi < lo`: the lower bound
/// wins.
pub fn clamp_i32(v: i32, lo: i32, hi: i32) -> (r: i32)
    ensures
        r == spec_clamp(v as int, lo as int, hi as int),
{
    if v > hi {
        if hi < lo { lo } else { hi }
    } else if v < lo {
        lo
    } else {
        v
    }
}

impl Rect {
    pub open spec fn right(self) -> int {
        self.x + self.width
    }

    pub open spec fn bottom(self) -> int {
        self.y + self.height
    }

    /// `self` lies inside `area` (edges included).
    pub open spec fn within(self, area: Rect) -> bool {
        &&& area.x <= self.x
        &&& area.y <= self.y
        &&& self.right() <= area.right()
        &&& self.bottom() <= area.bottom()
    }

    pub fn new(x: i32, y: i32, width: i32, height: i32) -> (r: Rect)
        ensures
            r == (Rect { x, y, width, height }),
    {
        Rect { x, y, width, height }
    }

    pub fn zero() -> (r: Rect)
        ensures
            r == (Rect { x: 0, y: 0, width: 0, height: 0 }),
    {
        Rect { x: 0, y: 0, width: 0, height: 0 }
    }

    /// Field-wise equality.
    pub fn eql(&self, other: Rect) -> (r: bool)
        ensures
            r == (*self == other),
    {
        self.x == other.x && self.y == other.y && self.width == other.width && self.height
            == other.height
    }
}

/// `r` made usable as an area: negative extents become empty and the
/// origin moves back so the far edges fit in `i32`. Sane rectangles are
/// left as they are.
pub open spec fn spec_sanitize(r: Rect) -> Rect {
    let w = if r.width < 0 { 0 } else { r.width as int };
    let h = if r.height < 0 { 0 } else { r.height as int };
    let x = if r.x as int > i32::MAX - w { i32::MAX - w } else { r.x as int };
    let y = if r.y as int > i32::MAX - h { i32::MAX - h } else { r.y as int };
    Rect { x: x as i32, y: y as i32, width: w as i32, height: h as i32 }
}

/// See `spec_sanitize`.
pub fn sanitize(r: Rect) -> (out: Rect)
    ensures
        out == spec_sanitize(r),
        sane_area(out),
        sane_area(r) ==> out == r,
{
    let w: i32 = if r.width < 0 { 0 } else { r.width };
    let h: i32 = if r.height < 0 { 0 } else { r.height };
    let x: i32 = if r.x > i32::MAX - w { i32::MAX - w } else { r.x };
    let y: i32 = if r.y > i32::MAX - h { i32::MAX - h } else { r.y };
    Rect { x, y, width: w, height: h }
}

/// Spec of `clamp_axis`: the size is cut to the room available (never below
/// `min_size`), then the start is pushed back inside the range.
pub open spec fn spec_clamp_axis(pos: int, size: int, start: int, extent: int, min_size: int) -> (int, int) {
    let s = spec_clamp(size, min_size, extent);
    let p = spec_clamp(pos, start, start + extent - s);
    (p, s)
}

/// Fit one axis of a rectangle into `[start, start + extent)`.
pub fn clamp_axis(pos: i32, size: i32, start: i32, extent: i32, min_size: i32) -> (r: (i32, i32))
    requires
        0 <= min_size,
        0 <= extent,
        min_size <= extent,
        start as int + extent <= i32::MAX,
    ensures
        (r.0 as int, r.1 as int) == spec_clamp_axis(pos as int, size as int, start as int, extent as int, min_size as int),
        start <= r.0,
        r.0 + r.1 <= start + extent,
        min_size <= r.1 <= extent,
{
    let s = clamp_i32(size, min_size, extent);
    let hi = (start as i64 + extent as i64 - s as i64) as i32;
    let p = clamp_i32(pos, start, hi);
    (p, s)
}

/// Spec of `fit_into`.
pub open spec fn spec_fit_into(r: Rect, area: Rect, min_size: int) -> Rect {
    let w = spec_clamp_axis(r.x as int, r.width as int, area.x as int, area.width as int, min_size);
    let h = spec_clamp_axis(r.y as int, r.height as int, area.y as int, area.height as int, min_size);
    Rect { x: w.0 as i32, width: w.1 as i32, y: h.0 as i32, height: h.1 as i32 }
}

/// An area whose extent is non-negative and whose far edges fit in `i32`.
pub open spec fn sane_area(area: Rect) -> bool {
    &&& 0 <= area.width
    &&& 0 <= area.height
    &&& area.right() <= i32::MAX
    &&& area.bottom() <= i32::MAX
}

/// Shrink `r` to fit `area` (not below `min_size`) and move it inside.
pub fn fit_into(r: Rect, area: Rect, min_size: i32) -> (out: Rect)
    requires
        sane_area(area),
        0 <= min_size,
        min_size <= area.width,
        min_size <= area.height,
    ensures
        out == spec_fit_into(r, area, min_size as int),
        out.within(area),
        min_size <= out.width,
        min_size <= out.height,
{
    let (x, w) = clamp_axis(r.x, r.width, area.x, area.width, min_size);
    let (y, h) = clamp_axis(r.y, r.height, area.y, area.height, min_size);
    Rect { x, y, width: w, height: h }
}

/// The smallest size a floating window may shrink to: both borders.
pub open spec fn min_floating_size(area: Rect, border_width: u32) -> int {
    let m = 2 * border_width as int;
    if m > area.width { if area.width < area.height { area.width as int } else { area.height as int } }
    else if m > area.height { area.height as int }
    else { m }
}

/// Two borders, capped at what the area can hold.
pub fn floating_min_size(area: Rect, border_width: u32) -> (m: i32)
    requires
        sane_area(area),
    ensures
        m == min_floating_size(area, border_width),
        0 <= m <= area.width,
        m <= area.height,
{
    let m: i64 = 2 * border_width as i64;
    if m > area.width as i64 {
        if area.width < area.height { area.width } else { area.height }
    } else if m > area.height as i64 {
        area.height
    } else {
        m as i32
    }
}

/// Half of `area`, centred in it.
pub open spec fn spec_center(area: Rect) -> Rect {
    Rect {
        x: (area.x + (area.width - area.width / 2) / 2) as i32,
        y: (area.y + (area.height - area.height / 2) / 2) as i32,
        width: (area.width / 2) as i32,
        height: (area.height / 2) as i32,
    }
}

/// A floating rectangle centred in `area`, half its width and height.
pub fn center_rectangle(area: Rect) -> (r: Rect)
    requires
        sane_area(area),
    ensures
        r == spec_center(area),
        r.width == area.width / 2,
        r.height == area.height / 2,
        r.x == area.x + (area.width - area.width / 2) / 2,
        r.y == area.y + (area.height - area.height / 2) / 2,
        r.within(area),
{
    let w = area.width / 2;
    let h = area.height / 2;
    Rect { x: area.x + (area.width - w) / 2, y: area.y + (area.height - h) / 2, width: w, height: h }
}

/// The floating rectangle a window gets when it arrives on an output.
pub fn initial_rectangle(area: Rect) -> (r: Rect)
    requires
        sane_area(area),
    ensures
        r == spec_center(area),
        r.within(area),
        r.width == area.width / 2,
        r.height == area.height / 2,
{
    center_rectangle(area)
}

/// Shift a floating rectangle by `(dx, dy)` and keep it inside `area`.
pub fn move_floating(r: Rect, area: Rect, dx: i32, dy: i32, min_size: i32) -> (out: Rect)
    requires
        sane_area(area),
        0 <= min_size,
        min_size <= area.width,
        min_size <= area.height,
    ensures
        out == spec_fit_into(
            Rect { x: spec_sat(r.x + dx) as i32, y: spec_sat(r.y + dy) as i32, width: r.width, height: r.height },
            area, min_size as int),
        out.within(area),
{
    let moved = Rect { x: sat(r.x as i64 + dx as i64), y: sat(r.y as i64 + dy as i64), width: r.width, height: r.height };
    fit_into(moved, area, min_size)
}

/// Grow (or shrink) a floating rectangle by `(dw, dh)` from its top-left
/// corner, keeping it inside `area` and no smaller than `min_size`.
pub fn resize_floating(r: Rect, area: Rect, dw: i32, dh: i32, min_size: i32) -> (out: Rect)
    requires
        sane_area(area),
        0 <= min_size,
        min_size <= area.width,
        min_size <= area.height,
    ensures
        out == spec_fit_into(
            Rect { x: r.x, y: r.y, width: spec_sat(r.width + dw) as i32, height: spec_sat(r.height + dh) as i32 },
            area, min_size as int),
        out.within(area),
{
    let grown = Rect { x: r.x, y: r.y, width: sat(r.width as i64 + dw as i64), height: sat(r.height as i64 + dh as i64) };
    fit_into(grown, area, min_size)
}

/// Half of `v`, rounded toward zero (Rust's integer division).
pub open spec fn trunc_half(v: int) -> int {
    if v >= 0 { v / 2 } else { -((-v) / 2) }
}

/// Grow (or shrink) a floating rectangle by `(dw, dh)` about its centre,
/// keeping it inside `area` and no smaller than `min_size`.
pub fn scale_floating(r: Rect, area: Rect, dw: i32, dh: i32, min_size: i32) -> (out: Rect)
    requires
        sane_area(area),
        0 <= min_size,
        min_size <= area.width,
        min_size <= area.height,
    ensures
        out == spec_fit_into(
            Rect {
                x: spec_sat(r.x - trunc_half(dw as int)) as i32,
                y: spec_sat(r.y - trunc_half(dh as int)) as i32,
                width: spec_sat(r.width + dw) as i32,
                height: spec_sat(r.height + dh) as i32,
            },
            area, min_size as int),
        out.within(area),
{
    let grown = Rect {
        x: sat(r.x as i64 - (dw / 2) as i64),
        y: sat(r.y as i64 - (dh / 2) as i64),
        width: sat(r.width as i64 + dw as i64),
        height: sat(r.height as i64 + dh as i64),
    };
    fit_into(grown, area, min_size)
}

} // verus!

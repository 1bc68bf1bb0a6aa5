//! Normalized and screen coordinate spaces, and the mapping between them.
use vstd::prelude::*;

verus! {

/// Fixed-point scale of normalized space: `UNIT` units make one field width,
/// so `(UNIT, UNIT)` is the bottom-right corner of the field.
pub const UNIT: i32 = 10_000;

/// Largest magnitude of a pixel coordinate of a screen rectangle.
pub const PIXEL_LIMIT: i64 = 0x8000_0000;

/// A position in normalized space, in units of `1 / UNIT` of the field.
#[derive(Clone, Copy, Debug, PartialEq, Eq, Structural)]
pub struct Point {
    pub x: i32,
    pub y: i32,
}

/// A displacement in normalized space, in units of `1 / UNIT` of the field.
#[derive(Clone, Copy, Debug, PartialEq, Eq, Structural)]
pub struct Delta {
    pub x: i64,
    pub y: i64,
}

/// A position on screen, in pixels.
#[derive(Clone, Copy, Debug, PartialEq, Eq, Structural)]
pub struct ScreenPos {
    pub x: i64,
    pub y: i64,
}

/// A displacement on screen, in pixels (a pointer drag between two redraws).
#[derive(Clone, Copy, Debug, PartialEq, Eq, Structural)]
pub struct ScreenVec {
    pub x: i32,
    pub y: i32,
}

/// The pixel rectangle that the field is drawn into.
#[derive(Clone, Copy, Debug, PartialEq, Eq, Structural)]
pub struct ScreenRect {
    pub min: ScreenPos,
    pub max: ScreenPos,
}

pub open spec fn in_pixel_range(v: int) -> bool {
    -PIXEL_LIMIT <= v <= PIXEL_LIMIT
}

impl ScreenRect {
    /// Non-degenerate, with every corner coordinate in pixel range.
    pub open spec fn wf(&self) -> bool {
        &&& in_pixel_range(self.min.x as int)
        &&& in_pixel_range(self.min.y as int)
        &&& in_pixel_range(self.max.x as int)
        &&& in_pixel_range(self.max.y as int)
        &&& self.min.x < self.max.x
        &&& self.min.y < self.max.y
    }

    pub open spec fn width(&self) -> int {
        self.max.x - self.min.x
    }

    pub open spec fn height(&self) -> int {
        self.max.y - self.min.y
    }
}

/// The pixel coordinate of normalized coordinate `frac` along an axis that
/// starts at pixel `min` and spans `len` pixels (rounded down).
pub open spec fn to_pixel(min: int, len: int, frac: int) -> int {
    min + (len * frac) / (UNIT as int)
}

/// The normalized length of `pixels` along an axis that spans `len` pixels
/// (rounded down).
pub open spec fn to_frac(pixels: int, len: int) -> int {
    (pixels * UNIT) / len
}

pub(crate) proof fn lemma_div_bounds(num: int, den: int, lo: int, hi: int)
    requires
        den > 0,
        den * lo <= num <= den * hi,
    ensures
        lo <= num / den <= hi,
{
    vstd::arithmetic::div_mod::lemma_fundamental_div_mod(num, den);
    let q = num / den;
    let r = num % den;
    assert(num == den * q + r && 0 <= r < den);
    if q < lo {
        assert(den * q <= den * (lo - 1)) by (nonlinear_arith)
            requires den > 0, q <= lo - 1;
        assert(den * (lo - 1) == den * lo - den) by (nonlinear_arith);
    }
    if q > hi {
        assert(den * q >= den * (hi + 1)) by (nonlinear_arith)
            requires den > 0, q >= hi + 1;
        assert(den * (hi + 1) == den * hi + den) by (nonlinear_arith);
    }
}

/// `len * frac` divided by `UNIT`, rounded down, where the result fits.
fn scale_floor(len: i64, frac: i64) -> (r: i64)
    requires
        0 < len <= 2 * PIXEL_LIMIT,
        -(i32::MAX as int) - 1 <= frac <= i32::MAX,
    ensures
        r == (len * frac) / (UNIT as int),
        -0x8_0000_0000_0000 <= r <= 0x8_0000_0000_0000,
{
    assert(-0x1_0000_0000_0000_0000 <= len * frac <= 0x1_0000_0000_0000_0000) by (nonlinear_arith)
        requires
            0 < len <= 0x1_0000_0000,
            -0x8000_0000 <= frac <= 0x8000_0000;
    let prod: i128 = (len as i128) * (frac as i128);
    let q = prod.checked_div_euclid(UNIT as i128);
    proof {
        lemma_div_bounds(prod as int, UNIT as int, -0x8_0000_0000_0000, 0x8_0000_0000_0000);
    }
    match q {
        Some(v) => v as i64,
        None => 0,
    }
}

/// Maps a normalized point to its pixel in `rect`:
/// `rect.min + (rect.max - rect.min) * pt`, per axis.
pub fn get_screen_coords(pt: Point, rect: ScreenRect) -> (r: ScreenPos)
    requires
        rect.wf(),
    ensures
        r.x == to_pixel(rect.min.x as int, rect.width(), pt.x as int),
        r.y == to_pixel(rect.min.y as int, rect.height(), pt.y as int),
{
    let dx = scale_floor(rect.max.x - rect.min.x, pt.x as i64);
    let dy = scale_floor(rect.max.y - rect.min.y, pt.y as i64);
    ScreenPos { x: rect.min.x + dx, y: rect.min.y + dy }
}

/// Converts a pixel displacement in `rect` to a normalized displacement:
/// `dist / (rect.max - rect.min)`, per axis.
pub fn screen_d_to_frac(dist: ScreenVec, rect: ScreenRect) -> (r: Delta)
    requires
        rect.wf(),
    ensures
        r.x == to_frac(dist.x as int, rect.width()),
        r.y == to_frac(dist.y as int, rect.height()),
{
    Delta {
        x: pixels_to_frac(dist.x, rect.max.x - rect.min.x),
        y: pixels_to_frac(dist.y, rect.max.y - rect.min.y),
    }
}

fn pixels_to_frac(pixels: i32, len: i64) -> (r: i64)
    requires
        0 < len,
    ensures
        r == to_frac(pixels as int, len as int),
{
    let num: i64 = (pixels as i64) * (UNIT as i64);
    proof {
        let lo = -0x8000_0000 * UNIT;
        let hi = 0x8000_0000 * UNIT;
        assert(lo <= num <= hi) by (nonlinear_arith)
            requires
                num == pixels * UNIT,
                -0x8000_0000 <= pixels <= 0x8000_0000,
                lo == -0x8000_0000 * UNIT,
                hi == 0x8000_0000 * UNIT;
        assert(len * lo <= num <= len * hi) by (nonlinear_arith)
            requires
                len >= 1,
                lo <= num <= hi,
                lo < 0,
                hi > 0;
        lemma_div_bounds(num as int, len as int, lo, hi);
    }
    match num.checked_div_euclid(len) {
        Some(v) => v,
        None => 0,
    }
}

/// Converts a normalized length to pixels, with the width of `rect` as the
/// scale: `length * (rect.max.x - rect.min.x)`.
pub fn get_screen_length(length: i32, rect: ScreenRect) -> (r: i64)
    requires
        rect.wf(),
    ensures
        r == (rect.width() * length) / (UNIT as int),
{
    scale_floor(rect.max.x - rect.min.x, length as i64)
}

proof fn lemma_axis_round_trip(min: int, len: int, p: int, d: int)
    requires
        len > 0,
    ensures
        ({
            let back = to_frac(to_pixel(min, len, p + d) - to_pixel(min, len, p), len);
            -(UNIT + len) < len * (back - d) < UNIT
        }),
{
    let u = UNIT as int;
    let a = len * p;
    let b = len * (p + d);
    assert(b - a == len * d) by (nonlinear_arith)
        requires a == len * p, b == len * (p + d);
    vstd::arithmetic::div_mod::lemma_fundamental_div_mod(a, u);
    vstd::arithmetic::div_mod::lemma_fundamental_div_mod(b, u);
    let px = b / u - a / u;
    assert(to_pixel(min, len, p + d) - to_pixel(min, len, p) == px);
    // u * px lies strictly within u of len * d
    assert(len * d - u < u * px < len * d + u) by (nonlinear_arith)
        requires
            a == u * (a / u) + a % u,
            b == u * (b / u) + b % u,
            0 <= a % u < u,
            0 <= b % u < u,
            px == b / u - a / u,
            b - a == len * d;
    let num = px * u;
    vstd::arithmetic::div_mod::lemma_fundamental_div_mod(num, len);
    let back = num / len;
    assert(len * back <= num < len * back + len);
    assert(-(u + len) < len * (back - d) < u) by (nonlinear_arith)
        requires
            len * back <= num,
            num < len * back + len,
            num == px * u,
            len * d - u < u * px < len * d + u;
}

/// Mapping a normalized point and a point displaced from it by `d` to the
/// screen, and converting the pixel difference back, recovers `d` to within
/// one pixel's worth of normalized length (`UNIT / width`) plus one unit:
/// `-(UNIT + w) < w * (back - d) < UNIT` on each axis of width `w`.
pub proof fn lemma_screen_round_trip(p: Point, d: Delta, rect: ScreenRect)
    requires
        rect.wf(),
    ensures
        ({
            let w = rect.width();
            let back = to_frac(
                to_pixel(rect.min.x as int, w, p.x + d.x) - to_pixel(rect.min.x as int, w, p.x as int),
                w,
            );
            -(UNIT + w) < w * (back - d.x) < UNIT
        }),
        ({
            let h = rect.height();
            let back = to_frac(
                to_pixel(rect.min.y as int, h, p.y + d.y) - to_pixel(rect.min.y as int, h, p.y as int),
                h,
            );
            -(UNIT + h) < h * (back - d.y) < UNIT
        }),
{
    lemma_axis_round_trip(rect.min.x as int, rect.width(), p.x as int, d.x as int);
    lemma_axis_round_trip(rect.min.y as int, rect.height(), p.y as int, d.y as int);
}

} // verus!

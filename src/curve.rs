//! Cubic Bézier curves in normalized space.
use vstd::prelude::*;
use crate::geometry::{
    get_screen_coords, to_pixel, Point, ScreenPos, ScreenRect, UNIT,
};

verus! {

/// Coordinate of a cubic Bézier curve at parameter `t / UNIT`, rounded down:
/// `(1-t)^3 c0 + 3 (1-t)^2 t c1 + 3 (1-t) t^2 c2 + t^3 c3`.
pub open spec fn bezier_coord(c0: int, c1: int, c2: int, c3: int, t: int) -> int {
    let u = UNIT as int;
    let s = u - t;
    (s * s * s * c0 + 3 * s * s * t * c1 + 3 * s * t * t * c2 + t * t * t * c3) / (u * u * u)
}

pub open spec fn in_i32(v: int) -> bool {
    i32::MIN <= v <= i32::MAX
}

/// `a` moved on by the step that leads from `b` to `a`.
pub open spec fn extend(a: int, b: int) -> int {
    a + (a - b)
}

/// Every point of the continuation of `pts` is representable.
pub open spec fn continuation_fits(pts: [Point; 4]) -> bool {
    &&& in_i32(extend(pts[3].x as int, pts[2].x as int))
    &&& in_i32(extend(pts[3].y as int, pts[2].y as int))
    &&& in_i32(extend(pts[3].x as int, pts[1].x as int))
    &&& in_i32(extend(pts[3].y as int, pts[1].y as int))
    &&& in_i32(extend(pts[3].x as int, pts[0].x as int))
    &&& in_i32(extend(pts[3].y as int, pts[0].y as int))
}

/// The curve that starts where `pts` ends and repeats its exit tangent,
/// last control offset and total displacement.
pub open spec fn is_continuation(pts: [Point; 4], r: [Point; 4]) -> bool {
    &&& r[0] == pts[3]
    &&& r[1].x == extend(pts[3].x as int, pts[2].x as int)
    &&& r[1].y == extend(pts[3].y as int, pts[2].y as int)
    &&& r[2].x == extend(pts[3].x as int, pts[1].x as int)
    &&& r[2].y == extend(pts[3].y as int, pts[1].y as int)
    &&& r[3].x == extend(pts[3].x as int, pts[0].x as int)
    &&& r[3].y == extend(pts[3].y as int, pts[0].y as int)
}

proof fn lemma_bezier_weights(s: int, t: int, u: int)
    requires
        0 <= s <= u,
        0 <= t <= u,
        s + t == u,
    ensures
        0 <= s * s <= u * u,
        0 <= s * s * s <= u * u * u,
        0 <= 3 * s * s <= 3 * u * u,
        0 <= 3 * s * s * t <= 3 * u * u * u,
        0 <= 3 * s <= 3 * u,
        0 <= 3 * s * t <= 3 * u * u,
        0 <= 3 * s * t * t <= 3 * u * u * u,
        0 <= t * t <= u * u,
        0 <= t * t * t <= u * u * u,
        s * s * s + 3 * s * s * t + 3 * s * t * t + t * t * t == u * u * u,
{
    assert(0 <= s * s <= u * u) by (nonlinear_arith)
        requires 0 <= s <= u;
    assert(0 <= s * s * s <= u * u * u) by (nonlinear_arith)
        requires 0 <= s <= u, 0 <= s * s <= u * u;
    assert(0 <= s * s * t <= u * u * u) by (nonlinear_arith)
        requires 0 <= t <= u, 0 <= s * s <= u * u;
    assert(0 <= 3 * s * s <= 3 * u * u) by (nonlinear_arith)
        requires 0 <= s * s <= u * u;
    assert(0 <= 3 * s * s * t <= 3 * u * u * u) by (nonlinear_arith)
        requires 0 <= s * s * t <= u * u * u;
    assert(0 <= s * t <= u * u) by (nonlinear_arith)
        requires 0 <= t <= u, 0 <= s <= u;
    assert(0 <= s * t * t <= u * u * u) by (nonlinear_arith)
        requires 0 <= t <= u, 0 <= s * t <= u * u;
    assert(0 <= 3 * s * t <= 3 * u * u) by (nonlinear_arith)
        requires 0 <= s * t <= u * u;
    assert(0 <= 3 * s * t * t <= 3 * u * u * u) by (nonlinear_arith)
        requires 0 <= s * t * t <= u * u * u;
    assert(0 <= t * t <= u * u) by (nonlinear_arith)
        requires 0 <= t <= u;
    assert(0 <= t * t * t <= u * u * u) by (nonlinear_arith)
        requires 0 <= t <= u, 0 <= t * t <= u * u;
    assert(s * s * s + 3 * s * s * t + 3 * s * t * t + t * t * t == u * u * u) by (nonlinear_arith)
        requires s + t == u;
}

proof fn lemma_weighted_term(w: int, c: int)
    requires
        0 <= w,
        i32::MIN <= c <= i32::MAX,
    ensures
        w * (i32::MIN as int) <= w * c <= w * (i32::MAX as int),
{
    assert(w * (i32::MIN as int) <= w * c <= w * (i32::MAX as int)) by (nonlinear_arith)
        requires 0 <= w, i32::MIN <= c <= i32::MAX;
}

/// Largest magnitude of a curve parameter, in units of `1 / UNIT`.
pub const MAX_T: i32 = 0x100_0000;

/// Whether the curve coordinate at `t / UNIT` can be computed: `t` within
/// `MAX_T`, and, outside `[0, UNIT]` where the curve may leave the hull of
/// its points, a representable result.
pub open spec fn coord_defined(c0: int, c1: int, c2: int, c3: int, t: int) -> bool {
    &&& -MAX_T <= t <= MAX_T
    &&& (0 <= t <= UNIT || in_i32(bezier_coord(c0, c1, c2, c3, t)))
}

/// Whether `bez_at_t(pts, t)` can be computed.
pub open spec fn bezier_defined(pts: [Point; 4], t: int) -> bool {
    &&& coord_defined(pts[0].x as int, pts[1].x as int, pts[2].x as int, pts[3].x as int, t)
    &&& coord_defined(pts[0].y as int, pts[1].y as int, pts[2].y as int, pts[3].y as int, t)
}

proof fn lemma_mul_abs(a: int, b: int, ba: int, bb: int)
    requires
        -ba <= a <= ba,
        -bb <= b <= bb,
    ensures
        -(ba * bb) <= a * b <= ba * bb,
{
    assert(-(ba * bb) <= a * b <= ba * bb) by (nonlinear_arith)
        requires -ba <= a <= ba, -bb <= b <= bb;
}

fn bez_coord(c0: i32, c1: i32, c2: i32, c3: i32, t: i32) -> (r: i32)
    requires
        coord_defined(c0 as int, c1 as int, c2 as int, c3 as int, t as int),
    ensures
        r == bezier_coord(c0 as int, c1 as int, c2 as int, c3 as int, t as int),
{
    let u: i128 = UNIT as i128;
    let t: i128 = t as i128;
    let s: i128 = u - t;
    let ghost b: int = 0x200_0000;
    let ghost c: int = 0x8000_0000;
    proof {
        lemma_mul_abs(s as int, s as int, b, b);
        lemma_mul_abs(s * s, s as int, b * b, b);
        lemma_mul_abs(3 * s, s as int, 3 * b, b);
        lemma_mul_abs(3 * s * s, t as int, 3 * b * b, b);
        lemma_mul_abs(3 * s, t as int, 3 * b, b);
        lemma_mul_abs(3 * s * t, t as int, 3 * b * b, b);
        lemma_mul_abs(t as int, t as int, b, b);
        lemma_mul_abs(t * t, t as int, b * b, b);
    }
    let w0: i128 = s * s * s;
    let w1: i128 = 3 * s * s * t;
    let w2: i128 = 3 * s * t * t;
    let w3: i128 = t * t * t;
    let cube: i128 = u * u * u;
    proof {
        let m = 3 * (b * b * b);
        lemma_mul_abs(w0 as int, c0 as int, m, c);
        lemma_mul_abs(w1 as int, c1 as int, m, c);
        lemma_mul_abs(w2 as int, c2 as int, m, c);
        lemma_mul_abs(w3 as int, c3 as int, m, c);
    }
    let num: i128 = w0 * (c0 as i128) + w1 * (c1 as i128) + w2 * (c2 as i128) + w3 * (c3 as i128);
    proof {
        let lo = i32::MIN as int;
        let hi = i32::MAX as int;
        if 0 <= t <= u {
            lemma_bezier_weights(s as int, t as int, u as int);
            lemma_weighted_term(w0 as int, c0 as int);
            lemma_weighted_term(w1 as int, c1 as int);
            lemma_weighted_term(w2 as int, c2 as int);
            lemma_weighted_term(w3 as int, c3 as int);
            assert(cube * lo == w0 * lo + w1 * lo + w2 * lo + w3 * lo) by (nonlinear_arith)
                requires cube == w0 + w1 + w2 + w3;
            assert(cube * hi == w0 * hi + w1 * hi + w2 * hi + w3 * hi) by (nonlinear_arith)
                requires cube == w0 + w1 + w2 + w3;
            crate::geometry::lemma_div_bounds(num as int, cube as int, lo, hi);
        }
    }
    match num.checked_div_euclid(cube) {
        Some(v) => v as i32,
        None => 0,
    }
}

/// The point of the cubic Bézier curve `pts` at parameter `t / UNIT`.
///
/// No clamping: for `t` outside `[0, UNIT]` the curve's polynomial
/// extrapolates.
pub fn bez_at_t(pts: [Point; 4], t: i32) -> (r: Point)
    requires
        bezier_defined(pts, t as int),
    ensures
        r.x == bezier_coord(pts[0].x as int, pts[1].x as int, pts[2].x as int, pts[3].x as int, t as int),
        r.y == bezier_coord(pts[0].y as int, pts[1].y as int, pts[2].y as int, pts[3].y as int, t as int),
{
    Point {
        x: bez_coord(pts[0].x, pts[1].x, pts[2].x, pts[3].x, t),
        y: bez_coord(pts[0].y, pts[1].y, pts[2].y, pts[3].y, t),
    }
}

/// A cubic Bézier curve passes exactly through its first point at `t = 0`
/// and exactly through its last point at `t = 1`.
pub proof fn lemma_bezier_endpoints(c0: int, c1: int, c2: int, c3: int)
    ensures
        bezier_coord(c0, c1, c2, c3, 0) == c0,
        bezier_coord(c0, c1, c2, c3, UNIT as int) == c3,
{
    let u = UNIT as int;
    let cube = u * u * u;
    assert(cube > 0) by (nonlinear_arith) requires u == 10000, cube == u * u * u;
    assert(u * u * u * c0 + 3 * u * u * 0 * c1 + 3 * u * 0 * 0 * c2 + 0 * 0 * 0 * c3 == c0 * cube)
        by (nonlinear_arith) requires cube == u * u * u;
    assert(0int * 0 * 0 * c0 + 3 * 0 * 0 * u * c1 + 3 * 0 * u * u * c2 + u * u * u * c3 == c3 * cube)
        by (nonlinear_arith) requires cube == u * u * u;
    vstd::arithmetic::div_mod::lemma_div_multiples_vanish(c0, cube);
    vstd::arithmetic::div_mod::lemma_div_multiples_vanish(c3, cube);
    assert(c0 * cube == cube * c0) by (nonlinear_arith);
    assert(c3 * cube == cube * c3) by (nonlinear_arith);
}

fn extend_coord(a: i32, b: i32) -> (r: i32)
    requires
        in_i32(extend(a as int, b as int)),
    ensures
        r == extend(a as int, b as int),
{
    let a64: i64 = a as i64;
    (a64 + (a64 - b as i64)) as i32
}

/// The curve that hands off smoothly from `pts`: it starts at `pts[3]`, and
/// its control points and end repeat the offsets of `pts[3]` from `pts[2]`,
/// `pts[1]` and `pts[0]`.
pub fn continuation_curve(pts: [Point; 4]) -> (r: [Point; 4])
    requires
        continuation_fits(pts),
    ensures
        is_continuation(pts, r),
{
    let end = pts[3];
    [
        end,
        Point { x: extend_coord(end.x, pts[2].x), y: extend_coord(end.y, pts[2].y) },
        Point { x: extend_coord(end.x, pts[1].x), y: extend_coord(end.y, pts[1].y) },
        Point { x: extend_coord(end.x, pts[0].x), y: extend_coord(end.y, pts[0].y) },
    ]
}

fn extends_in_range(a: i32, b: i32) -> (r: bool)
    ensures
        r == in_i32(extend(a as int, b as int)),
{
    let v: i64 = (a as i64) + ((a as i64) - (b as i64));
    i32::MIN as i64 <= v && v <= i32::MAX as i64
}

/// Whether the continuation of `pts` is representable.
pub fn can_continue(pts: [Point; 4]) -> (r: bool)
    ensures
        r == continuation_fits(pts),
{
    let e = pts[3];
    extends_in_range(e.x, pts[2].x) && extends_in_range(e.y, pts[2].y)
        && extends_in_range(e.x, pts[1].x) && extends_in_range(e.y, pts[1].y)
        && extends_in_range(e.x, pts[0].x) && extends_in_range(e.y, pts[0].y)
}

/// A continuation curve moves by the same total displacement as the curve
/// it continues: `r[3] - r[0] == pts[3] - pts[0]`.
pub proof fn lemma_continuation_displacement(pts: [Point; 4], r: [Point; 4])
    requires
        is_continuation(pts, r),
    ensures
        r[3].x - r[0].x == pts[3].x - pts[0].x,
        r[3].y - r[0].y == pts[3].y - pts[0].y,
{
}

/// Fixed-point control offsets of a quarter circle of radius `UNIT` from
/// `(0, UNIT)` to `(UNIT, 0)`, about the origin.
pub const ARC_HANDLE: i32 = 5532;
pub const ARC_RIM: i32 = 9990;

/// The unit quarter-arc control vectors before rotation.
pub open spec fn arc_base(i: int) -> (int, int) {
    if i == 0 {
        (0, UNIT as int)
    } else if i == 1 {
        (ARC_HANDLE as int, ARC_RIM as int)
    } else if i == 2 {
        (ARC_RIM as int, ARC_HANDLE as int)
    } else {
        (UNIT as int, 0)
    }
}

/// A vector turned a quarter turn `n` times: `(x, y)` becomes `(y, -x)`.
pub open spec fn rotated(v: (int, int), n: nat) -> (int, int)
    decreases n,
{
    if n == 0 {
        v
    } else {
        let w = rotated(v, (n - 1) as nat);
        (w.1, -w.0)
    }
}

/// A radius that keeps a quarter arc about `center` representable.
pub open spec fn arc_fits(center: Point, r: i32) -> bool {
    &&& 0 <= r
    &&& in_i32(center.x - r)
    &&& in_i32(center.x + r)
    &&& in_i32(center.y - r)
    &&& in_i32(center.y + r)
}

/// Control point `i` of the quarter arc of radius `r` about `center`, turned
/// `quadrant` quarter turns, in normalized space.
pub open spec fn arc_point(center: Point, r: int, quadrant: int, i: int) -> (int, int) {
    let v = rotated(arc_base(i), if quadrant > 0 { quadrant as nat } else { 0 });
    (center.x + (r * v.0) / (UNIT as int), center.y + (r * v.1) / (UNIT as int))
}

/// `out` holds the screen points of the quarter arc of radius `r` about
/// `center`, turned `quadrant` quarter turns, in `rect`.
pub open spec fn is_arc(out: [ScreenPos; 4], center: Point, r: int, quadrant: int, rect: ScreenRect) -> bool {
    forall|i: int| 0 <= i < 4 ==> {
        let p = #[trigger] arc_point(center, r, quadrant, i);
        out[i].x == to_pixel(rect.min.x as int, rect.width(), p.0)
            && out[i].y == to_pixel(rect.min.y as int, rect.height(), p.1)
    }
}

proof fn lemma_rotated_bounds(v: (int, int), n: nat)
    requires
        -UNIT <= v.0 <= UNIT,
        -UNIT <= v.1 <= UNIT,
    ensures
        -UNIT <= rotated(v, n).0 <= UNIT,
        -UNIT <= rotated(v, n).1 <= UNIT,
    decreases n,
{
    if n > 0 {
        lemma_rotated_bounds(v, (n - 1) as nat);
    }
}

fn scaled_offset(r: i32, v: i32) -> (o: i32)
    requires
        0 <= r,
        -UNIT <= v <= UNIT,
    ensures
        o == (r * v) / (UNIT as int),
        -r <= o <= r,
{
    assert(-0x8000_0000 * 10000 <= r * v <= 0x8000_0000 * 10000) by (nonlinear_arith)
        requires 0 <= r <= 0x8000_0000, -10000 <= v <= 10000;
    let num: i64 = (r as i64) * (v as i64);
    proof {
        let u = UNIT as int;
        assert(u * (-r) <= num <= u * r) by (nonlinear_arith)
            requires num == r * v, 0 <= r, -u <= v <= u, u > 0;
        crate::geometry::lemma_div_bounds(num as int, u, -r as int, r as int);
    }
    match num.checked_div_euclid(UNIT as i64) {
        Some(q) => q as i32,
        None => 0,
    }
}

/// The four screen points of a cubic approximation of a quarter circle of
/// radius `r` about `center`, turned `quadrant` quarter turns, in `rect`.
pub fn create_bezier(center: Point, r: i32, quadrant: i32, rect: ScreenRect) -> (out: [ScreenPos; 4])
    requires
        rect.wf(),
        arc_fits(center, r),
    ensures
        is_arc(out, center, r as int, quadrant as int, rect),
{
    let mut vs: [(i32, i32); 4] = [(0, UNIT), (ARC_HANDLE, ARC_RIM), (ARC_RIM, ARC_HANDLE), (UNIT, 0)];
    let ghost turns: nat = 0;
    let mut q: i32 = 0;
    while q < quadrant
        invariant
            0 <= q,
            quadrant > 0 ==> q <= quadrant,
            quadrant <= 0 ==> q == 0,
            forall|i: int| 0 <= i < 4 ==> rotated(arc_base(i), q as nat)
                == (#[trigger] vs[i].0 as int, vs[i].1 as int),
        decreases quadrant - q,
    {
        let mut i: usize = 0;
        while i < 4
            invariant
                0 <= q < quadrant,
                0 <= i <= 4,
                forall|j: int| 0 <= j < i ==> rotated(arc_base(j), (q + 1) as nat)
                    == (#[trigger] vs[j].0 as int, vs[j].1 as int),
                forall|j: int| i <= j < 4 ==> rotated(arc_base(j), q as nat)
                    == (#[trigger] vs[j].0 as int, vs[j].1 as int),
            decreases 4 - i,
        {
            proof {
                lemma_rotated_bounds(arc_base(i as int), q as nat);
            }
            let (x, y) = vs[i];
            vs[i] = (y, -x);
            i = i + 1;
        }
        q = q + 1;
    }
    let mut out: [ScreenPos; 4] = [ScreenPos { x: 0, y: 0 }; 4];
    let mut i: usize = 0;
    while i < 4
        invariant
            0 <= i <= 4,
            rect.wf(),
            arc_fits(center, r),
            forall|j: int| 0 <= j < 4 ==> rotated(arc_base(j), if quadrant > 0 { quadrant as nat } else { 0 })
                == (#[trigger] vs[j].0 as int, vs[j].1 as int),
            forall|j: int| 0 <= j < i ==> {
                let p = #[trigger] arc_point(center, r as int, quadrant as int, j);
                out[j].x == to_pixel(rect.min.x as int, rect.width(), p.0)
                    && out[j].y == to_pixel(rect.min.y as int, rect.height(), p.1)
            },
        decreases 4 - i,
    {
        proof {
            lemma_rotated_bounds(arc_base(i as int), if quadrant > 0 { quadrant as nat } else { 0 });
        }
        let (vx, vy) = vs[i];
        let ox = scaled_offset(r, vx);
        let oy = scaled_offset(r, vy);
        let pt = Point { x: center.x + ox, y: center.y + oy };
        out[i] = get_screen_coords(pt, rect);
        i = i + 1;
    }
    out
}

} // verus!

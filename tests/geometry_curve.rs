use jugge::curve::{bez_at_t, can_continue, continuation_curve, create_bezier};
use jugge::field::{area_line, draw_field, NINE_M, SIX_M};
use jugge::geometry::{
    get_screen_coords, get_screen_length, screen_d_to_frac, Point, ScreenPos, ScreenRect,
    ScreenVec, UNIT,
};

fn p(x: i32, y: i32) -> Point {
    Point { x, y }
}

fn rect(x0: i64, y0: i64, x1: i64, y1: i64) -> ScreenRect {
    ScreenRect { min: ScreenPos { x: x0, y: y0 }, max: ScreenPos { x: x1, y: y1 } }
}

#[test]
fn screen_coords_map_corners_and_centre() {
    let r = rect(100, 50, 500, 450);
    assert_eq!(get_screen_coords(p(0, 0), r), ScreenPos { x: 100, y: 50 });
    assert_eq!(get_screen_coords(p(UNIT, UNIT), r), ScreenPos { x: 500, y: 450 });
    assert_eq!(get_screen_coords(p(5000, 2500), r), ScreenPos { x: 300, y: 150 });
}

#[test]
fn screen_coords_round_down() {
    let r = rect(0, 0, 3, 3);
    // 3 * 0.5 = 1.5 pixels, rounded down; -1.5 rounds down to -2
    assert_eq!(get_screen_coords(p(5000, -5000), r), ScreenPos { x: 1, y: -2 });
}

#[test]
fn screen_delta_to_normalized() {
    let r = rect(100, 50, 500, 250);
    let d = screen_d_to_frac(ScreenVec { x: 40, y: -20 }, r);
    assert_eq!(d.x, 1000);
    assert_eq!(d.y, -1000);
}

#[test]
fn screen_length_uses_width() {
    let r = rect(10, 0, 410, 100);
    assert_eq!(get_screen_length(2500, r), 100);
    assert_eq!(get_screen_length(UNIT, r), 400);
}

#[test]
fn round_trip_of_a_delta_is_close() {
    let r = rect(7, 3, 640, 613);
    let a = p(1234, 4321);
    let b = p(1234 + 777, 4321 - 555);
    let sa = get_screen_coords(a, r);
    let sb = get_screen_coords(b, r);
    let back = screen_d_to_frac(
        ScreenVec { x: (sb.x - sa.x) as i32, y: (sb.y - sa.y) as i32 },
        r,
    );
    let w = 633;
    let h = 610;
    assert!((back.x - 777).abs() * w < (UNIT as i64) + w);
    assert!((back.y + 555).abs() * h < (UNIT as i64) + h);
}

#[test]
fn bezier_hits_end_points_exactly() {
    let pts = [p(1000, 1000), p(2000, 1000), p(2000, 2000), p(3000, 3000)];
    assert_eq!(bez_at_t(pts, 0), p(1000, 1000));
    assert_eq!(bez_at_t(pts, UNIT), p(3000, 3000));
    let odd = [p(-7, 13), p(99999, -5), p(3, 3), p(-123456, 654321)];
    assert_eq!(bez_at_t(odd, 0), p(-7, 13));
    assert_eq!(bez_at_t(odd, UNIT), p(-123456, 654321));
}

#[test]
fn bezier_midpoint_value() {
    // B(1/2) = (P0 + 3 P1 + 3 P2 + P3) / 8
    let pts = [p(0, 0), p(8000, 0), p(8000, 8000), p(0, 8000)];
    assert_eq!(bez_at_t(pts, 5000), p(6000, 4000));
}

#[test]
fn bezier_extrapolates_outside_unit_range() {
    // B(t) = 3 (1 - t) t^2 + t^3 on both axes; B(2) = -4, B(-1) = 5
    let pts = [p(0, 0), p(0, 0), p(UNIT, UNIT), p(UNIT, UNIT)];
    assert_eq!(bez_at_t(pts, 2 * UNIT), p(-4 * UNIT, -4 * UNIT));
    assert_eq!(bez_at_t(pts, -UNIT), p(5 * UNIT, 5 * UNIT));
}

#[test]
fn continuation_keeps_displacement() {
    let pts = [p(1000, 1000), p(2000, 1000), p(2000, 2000), p(3000, 3000)];
    assert!(can_continue(pts));
    let c = continuation_curve(pts);
    assert_eq!(c[0], p(3000, 3000));
    assert_eq!(c[1], p(4000, 4000));
    assert_eq!(c[2], p(4000, 5000));
    assert_eq!(c[3], p(5000, 5000));
    assert_eq!(c[3].x - c[0].x, pts[3].x - pts[0].x);
    assert_eq!(c[3].y - c[0].y, pts[3].y - pts[0].y);
}

#[test]
fn continuation_out_of_range_is_reported() {
    let pts = [p(i32::MIN, 0), p(0, 0), p(0, 0), p(0, 0)];
    assert!(!can_continue(pts));
    let ok = [p(0, 0), p(0, 0), p(0, 0), p(i32::MAX / 2, 0)];
    assert!(can_continue(ok));
}

#[test]
fn quarter_arc_points() {
    let r = rect(0, 0, 10000, 10000);
    let arc = create_bezier(p(5000, 0), 2000, 0, r);
    assert_eq!(arc[0], ScreenPos { x: 5000, y: 2000 });
    assert_eq!(arc[1], ScreenPos { x: 5000 + 1106, y: 1998 });
    assert_eq!(arc[3], ScreenPos { x: 7000, y: 0 });
    // three quarter turns: (x, y) -> (y, -x) thrice is (x, y) -> (-y, x)
    let turned = create_bezier(p(5000, 0), 2000, 3, r);
    assert_eq!(turned[0], ScreenPos { x: 3000, y: 0 });
    assert_eq!(turned[3], ScreenPos { x: 5000, y: 2000 });
}

#[test]
fn field_markings_in_pixels() {
    let r = rect(0, 0, 400, 400);
    let f = draw_field(r);
    assert_eq!(f.goal_min, ScreenPos { x: 170, y: 0 });
    assert_eq!(f.goal_max, ScreenPos { x: 230, y: 4 });
    assert_eq!(f.six_m.straight_start, ScreenPos { x: 170, y: 120 });
    assert_eq!(f.six_m.straight_end, ScreenPos { x: 230, y: 120 });
    assert_eq!(f.six_m.right_arc[3], ScreenPos { x: 350, y: 0 });
    let nine = area_line(r, NINE_M);
    assert_eq!(nine.straight_start, ScreenPos { x: 170, y: 180 });
    assert_eq!(SIX_M, 3000);
}

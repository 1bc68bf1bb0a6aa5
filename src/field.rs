//! Where the fixed markings of a handball field are drawn.
use vstd::prelude::*;
use crate::curve::{create_bezier, is_arc};
use crate::geometry::{get_screen_coords, to_pixel, Point, ScreenPos, ScreenRect, UNIT};

verus! {

// Normalized space spans the 20 m width of the field, so one metre is
// `UNIT / 20` = 500 units.

/// Width of the goal: 3 m.
pub const GOAL_WIDTH: i32 = 1500;

/// Distance from a side line to the nearer goal post: 8.5 m.
pub const UNTIL_GOAL: i32 = 4250;

/// Radius of the goal area line: 6 m.
pub const SIX_M: i32 = 3000;

/// Radius of the free-throw line: 9 m.
pub const NINE_M: i32 = 4500;

/// Distance from a side line to where the goal area line meets it: 2.5 m.
pub const SHOULDER: i32 = 1250;

/// Depth of the goal as drawn: 0.2 m.
pub const GOAL_DEPTH: i32 = 100;

/// A line around the goal at a fixed distance: a quarter arc about each goal
/// post and the straight piece between them.
#[derive(Clone, Copy, Debug)]
pub struct AreaLine {
    pub left_arc: [ScreenPos; 4],
    pub right_arc: [ScreenPos; 4],
    pub straight_start: ScreenPos,
    pub straight_end: ScreenPos,
}

/// The markings in front of one goal, in screen space.
#[derive(Clone, Copy, Debug)]
pub struct FieldMarkings {
    pub goal_min: ScreenPos,
    pub goal_max: ScreenPos,
    pub six_m: AreaLine,
}

pub open spec fn is_screen_of(s: ScreenPos, x: int, y: int, rect: ScreenRect) -> bool {
    s.x == to_pixel(rect.min.x as int, rect.width(), x) && s.y == to_pixel(rect.min.y as int, rect.height(), y)
}

/// `l` is the line at distance `radius` around the goal in `rect`: arcs about
/// both goal posts (the left one turned three quarter turns) joined at depth
/// `radius`.
pub open spec fn is_area_line(l: AreaLine, radius: int, rect: ScreenRect) -> bool {
    let left = Point { x: (SHOULDER + SIX_M) as i32, y: 0 };
    let right = Point { x: (SHOULDER + SIX_M + GOAL_WIDTH) as i32, y: 0 };
    &&& is_arc(l.left_arc, left, radius, 3, rect)
    &&& is_arc(l.right_arc, right, radius, 0, rect)
    &&& is_screen_of(l.straight_start, (SHOULDER + SIX_M) as int, radius, rect)
    &&& is_screen_of(l.straight_end, (SHOULDER + SIX_M + GOAL_WIDTH) as int, radius, rect)
}

/// The line at distance `radius` around the goal, drawn into `rect`.
pub fn area_line(rect: ScreenRect, radius: i32) -> (r: AreaLine)
    requires
        rect.wf(),
        0 <= radius <= UNIT,
    ensures
        is_area_line(r, radius as int, rect),
{
    let left = Point { x: SHOULDER + SIX_M, y: 0 };
    let right = Point { x: SHOULDER + SIX_M + GOAL_WIDTH, y: 0 };
    AreaLine {
        left_arc: create_bezier(left, radius, 3, rect),
        right_arc: create_bezier(right, radius, 0, rect),
        straight_start: get_screen_coords(Point { x: SHOULDER + SIX_M, y: radius }, rect),
        straight_end: get_screen_coords(Point { x: SHOULDER + SIX_M + GOAL_WIDTH, y: radius }, rect),
    }
}

/// The goal and the goal area line, drawn into `rect`.
pub fn draw_field(rect: ScreenRect) -> (r: FieldMarkings)
    requires
        rect.wf(),
    ensures
        is_screen_of(r.goal_min, UNTIL_GOAL as int, 0, rect),
        is_screen_of(r.goal_max, UNIT - UNTIL_GOAL, GOAL_DEPTH as int, rect),
        is_area_line(r.six_m, SIX_M as int, rect),
{
    FieldMarkings {
        goal_min: get_screen_coords(Point { x: UNTIL_GOAL, y: 0 }, rect),
        goal_max: get_screen_coords(Point { x: UNIT - UNTIL_GOAL, y: GOAL_DEPTH }, rect),
        six_m: area_line(rect, SIX_M),
    }
}

} // verus!

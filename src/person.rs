//! A marker on the field: its path within one frame, and how pointer events
//! edit it.
use vstd::prelude::*;
use crate::curve::{
    bez_at_t, bezier_coord, bezier_defined, continuation_curve, continuation_fits, in_i32, is_continuation,
};
use crate::geometry::{screen_d_to_frac, to_frac, Delta, Point, ScreenRect, ScreenVec};

verus! {

/// The role of a marker.
#[derive(Clone, Copy, Debug, PartialEq, Eq, Structural)]
pub enum PlayerType {
    Attacking,
    Defending,
    Ball,
}

/// The path of a marker within one frame.
#[derive(Clone, Copy, Debug)]
pub enum Movement {
    /// The marker stands still at this point.
    Fixed(Point),
    /// The marker moves along this cubic Bézier curve: start, two control
    /// points, end.
    Curve([Point; 4]),
}

/// The fill of a marker's dots, by role and selection.
#[derive(Clone, Copy, Debug, PartialEq, Eq, Structural)]
pub enum MarkerColor {
    Red,
    DarkRed,
    Blue,
    DarkBlue,
}

/// What the pointer did to one hit region during one redraw.
#[derive(Clone, Copy, Debug, PartialEq, Eq, Structural)]
pub struct PointerState {
    pub hovered: bool,
    pub dragged: bool,
    pub clicked: bool,
    pub double_clicked: bool,
    /// Pointer motion since the last redraw, while dragged.
    pub drag: ScreenVec,
}

/// The pointer events of one redraw for one marker: its main point, then
/// control points 1 to 3 (ignored while the marker stands still).
#[derive(Clone, Copy, Debug)]
pub struct MarkerEvents {
    pub primary: PointerState,
    pub controls: [PointerState; 3],
}

/// A marker: a labelled player or the ball.
///
/// Its hit regions are keyed by `(id, k)` for control point `k`; `id` is
/// handed out by the owning animation and is unique within it.
#[derive(Clone, Debug)]
pub struct Person {
    pub id: u64,
    pub movement: Movement,
    pub label: String,
    pub active: bool,
    pub p_type: PlayerType,
}

/// Offsets of the control points of the curve that a standing marker gets
/// when its path type is toggled.
pub const TOGGLE_STEP: i32 = 500;

pub open spec fn pt(x: int, y: int) -> Point {
    Point { x: x as i32, y: y as i32 }
}

pub open spec fn shift_fits(p: Point, d: Delta) -> bool {
    in_i32(p.x + d.x) && in_i32(p.y + d.y)
}

pub open spec fn shifted(p: Point, d: Delta) -> Point {
    pt(p.x + d.x, p.y + d.y)
}

/// The point of a movement that the marker is drawn and picked at.
pub open spec fn anchor_of(m: Movement) -> Point {
    match m {
        Movement::Fixed(p) => p,
        Movement::Curve(pts) => pts[0],
    }
}

/// `pts` with the point at `idx` replaced by `p`.
pub open spec fn replaced(pts: [Point; 4], idx: int, p: Point) -> [Point; 4] {
    [
        if idx == 0 { p } else { pts[0] },
        if idx == 1 { p } else { pts[1] },
        if idx == 2 { p } else { pts[2] },
        if idx == 3 { p } else { pts[3] },
    ]
}

/// Whether `moved(m, d, idx)` is defined and representable.
pub open spec fn can_move(m: Movement, d: Delta, idx: int) -> bool {
    match m {
        Movement::Fixed(p) => idx == 0 && shift_fits(p, d),
        Movement::Curve(pts) => if idx == 0 {
            forall|i: int| 0 <= i < 4 ==> #[trigger] shift_fits(pts[i], d)
        } else {
            1 <= idx < 4 && shift_fits(pts[idx], d)
        },
    }
}

/// `m` with control point `idx` shifted by `d`; index 0 shifts the whole
/// path.
pub open spec fn moved(m: Movement, d: Delta, idx: int) -> Movement {
    match m {
        Movement::Fixed(p) => Movement::Fixed(shifted(p, d)),
        Movement::Curve(pts) => if idx == 0 {
            Movement::Curve(
                [shifted(pts[0], d), shifted(pts[1], d), shifted(pts[2], d), shifted(pts[3], d)],
            )
        } else {
            Movement::Curve(replaced(pts, idx, shifted(pts[idx], d)))
        },
    }
}

pub open spec fn toggle_fits(m: Movement) -> bool {
    match m {
        Movement::Fixed(p) => in_i32(p.x + 2 * TOGGLE_STEP) && in_i32(p.y + 2 * TOGGLE_STEP),
        Movement::Curve(_) => true,
    }
}

/// A standing marker gets a short default curve from its point; a moving one
/// stands still at the start of its curve.
pub open spec fn toggled(m: Movement) -> Movement {
    match m {
        Movement::Fixed(p) => Movement::Curve(
            [
                p,
                pt(p.x + TOGGLE_STEP, p.y as int),
                pt(p.x + 2 * TOGGLE_STEP, p.y + TOGGLE_STEP),
                pt(p.x + 2 * TOGGLE_STEP, p.y + 2 * TOGGLE_STEP),
            ],
        ),
        Movement::Curve(pts) => Movement::Fixed(pts[0]),
    }
}

/// The path of the marker in the next frame.
pub open spec fn is_next_movement(m: Movement, n: Movement) -> bool {
    match m {
        Movement::Fixed(p) => n == Movement::Fixed(p),
        Movement::Curve(pts) => match n {
            Movement::Curve(r) => is_continuation(pts, r),
            Movement::Fixed(_) => false,
        },
    }
}

pub open spec fn next_fits(m: Movement) -> bool {
    match m {
        Movement::Fixed(_) => true,
        Movement::Curve(pts) => continuation_fits(pts),
    }
}

/// The normalized drag of `ev` in `rect`.
pub open spec fn drag_delta(ev: PointerState, rect: ScreenRect) -> Delta {
    Delta {
        x: to_frac(ev.drag.x as int, rect.width()) as i64,
        y: to_frac(ev.drag.y as int, rect.height()) as i64,
    }
}

/// The path after `ev` drags control point `idx` of a marker: only an active
/// marker moves, and only where the result is representable.
pub open spec fn after_drag(m: Movement, active: bool, ev: PointerState, idx: int, rect: ScreenRect) -> Movement {
    let d = drag_delta(ev, rect);
    if ev.dragged && active && can_move(m, d, idx) {
        moved(m, d, idx)
    } else {
        m
    }
}

/// The path after `ev` on the main point: a drag, then a toggle on a double
/// click.
pub open spec fn after_primary(m: Movement, active: bool, ev: PointerState, rect: ScreenRect) -> Movement {
    let dragged = after_drag(m, active, ev, 0, rect);
    if ev.double_clicked && toggle_fits(dragged) {
        toggled(dragged)
    } else {
        dragged
    }
}

/// The path after one redraw's events: main point, then control points 1 to 3.
pub open spec fn after_events(m: Movement, active: bool, ev: MarkerEvents, rect: ScreenRect) -> Movement {
    let m0 = after_primary(m, active, ev.primary, rect);
    let m1 = after_drag(m0, active, ev.controls[0], 1, rect);
    let m2 = after_drag(m1, active, ev.controls[1], 2, rect);
    after_drag(m2, active, ev.controls[2], 3, rect)
}

/// Whether the events ask for the marker to become the selected one.
pub open spec fn activates(ev: MarkerEvents) -> bool {
    ev.primary.clicked || ev.primary.double_clicked
}

/// Whether the position at parameter `t / UNIT` can be computed: always
/// for a standing marker, and for a moving one wherever its curve can be
/// evaluated (in particular for every `t` in `[0, UNIT]`).
pub open spec fn position_defined(m: Movement, t: int) -> bool {
    match m {
        Movement::Fixed(_) => true,
        Movement::Curve(pts) => bezier_defined(pts, t),
    }
}

/// The position of a marker at parameter `t / UNIT` of its path.
pub open spec fn position_at(m: Movement, t: int) -> (int, int) {
    match m {
        Movement::Fixed(p) => (p.x as int, p.y as int),
        Movement::Curve(pts) => (
            bezier_coord(pts[0].x as int, pts[1].x as int, pts[2].x as int, pts[3].x as int, t),
            bezier_coord(pts[0].y as int, pts[1].y as int, pts[2].y as int, pts[3].y as int, t),
        ),
    }
}

fn shift_point(p: Point, d: Delta) -> (r: Option<Point>)
    ensures
        r == (if shift_fits(p, d) { Some(shifted(p, d)) } else { None }),
{
    let x: i64 = p.x as i64;
    let y: i64 = p.y as i64;
    if d.x >= 0 && x > i32::MAX as i64 - d.x {
        return None;
    }
    if d.x < 0 && x < i32::MIN as i64 - d.x {
        return None;
    }
    if d.y >= 0 && y > i32::MAX as i64 - d.y {
        return None;
    }
    if d.y < 0 && y < i32::MIN as i64 - d.y {
        return None;
    }
    Some(Point { x: (x + d.x) as i32, y: (y + d.y) as i32 })
}

/// `a` and `b` agree on everything but their paths.
pub open spec fn same_but_path(a: Person, b: Person) -> bool {
    &&& a.id == b.id
    &&& a.label@ == b.label@
    &&& a.active == b.active
    &&& a.p_type == b.p_type
}

impl Person {
    /// A marker with the given path, label and role, not selected.
    pub fn new(movement: Movement, label: &str, p_type: PlayerType, id: u64) -> (r: Self)
        ensures
            r.id == id,
            r.movement == movement,
            r.label@ == label@,
            !r.active,
            r.p_type == p_type,
    {
        Person { id, movement, label: label.to_owned(), active: false, p_type }
    }

    /// A marker that stands still at `pt`.
    pub fn still(pt: Point, label: &str, p_type: PlayerType, id: u64) -> (r: Self)
        ensures
            r.id == id,
            r.movement == Movement::Fixed(pt),
            r.label@ == label@,
            !r.active,
            r.p_type == p_type,
    {
        Self::new(Movement::Fixed(pt), label, p_type, id)
    }

    /// A marker that moves along the curve `pts`.
    pub fn moving(pts: [Point; 4], label: &str, p_type: PlayerType, id: u64) -> (r: Self)
        ensures
            r.id == id,
            r.movement == Movement::Curve(pts),
            r.label@ == label@,
            !r.active,
            r.p_type == p_type,
    {
        Self::new(Movement::Curve(pts), label, p_type, id)
    }

    /// The same player in the next frame: a standing marker keeps its point,
    /// a moving one continues along the continuation of its curve.
    pub fn from_prev(prev: &Self, id: u64) -> (r: Self)
        requires
            next_fits(prev.movement),
        ensures
            r.id == id,
            is_next_movement(prev.movement, r.movement),
            r.label@ == prev.label@,
            !r.active,
            r.p_type == prev.p_type,
    {
        match prev.movement {
            Movement::Curve(pts) => Self::moving(continuation_curve(pts), prev.label.as_str(), prev.p_type, id),
            Movement::Fixed(p) => Self::still(p, prev.label.as_str(), prev.p_type, id),
        }
    }

    /// The point that the marker is drawn and picked at: the start of its
    /// path.
    pub fn anchor(&self) -> (r: Point)
        ensures
            r == anchor_of(self.movement),
    {
        match self.movement {
            Movement::Fixed(p) => p,
            Movement::Curve(pts) => pts[0],
        }
    }

    /// Attacking markers are red, the others blue; the selected one darker.
    pub fn get_color(&self) -> (r: MarkerColor)
        ensures
            r == (if self.p_type == PlayerType::Attacking {
                if self.active { MarkerColor::DarkRed } else { MarkerColor::Red }
            } else {
                if self.active { MarkerColor::DarkBlue } else { MarkerColor::Blue }
            }),
    {
        match self.p_type {
            PlayerType::Attacking => if self.active { MarkerColor::DarkRed } else { MarkerColor::Red },
            _ => if self.active { MarkerColor::DarkBlue } else { MarkerColor::Blue },
        }
    }

    /// Flips between standing still and moving (see `toggled`); refused, and
    /// `false`, where the new curve would not be representable.
    pub fn toggle_path_type(&mut self) -> (r: bool)
        ensures
            r == toggle_fits(old(self).movement),
            final(self).movement == (if r { toggled(old(self).movement) } else { old(self).movement }),
            same_but_path(*final(self), *old(self)),
    {
        match self.movement {
            Movement::Curve(pts) => {
                self.movement = Movement::Fixed(pts[0]);
                true
            },
            Movement::Fixed(p) => {
                if p.x > i32::MAX - 2 * TOGGLE_STEP || p.y > i32::MAX - 2 * TOGGLE_STEP {
                    return false;
                }
                self.movement = Movement::Curve(
                    [
                        p,
                        Point { x: p.x + TOGGLE_STEP, y: p.y },
                        Point { x: p.x + 2 * TOGGLE_STEP, y: p.y + TOGGLE_STEP },
                        Point { x: p.x + 2 * TOGGLE_STEP, y: p.y + 2 * TOGGLE_STEP },
                    ],
                );
                true
            },
        }
    }

    /// Shifts control point `idx` by `d`, or the whole path for `idx == 0`.
    /// Only a selected marker moves, a standing one only by its point, and
    /// nothing moves where a point would leave the representable range; the
    /// result says whether the path changed.
    pub fn translate(&mut self, d: Delta, idx: usize) -> (r: bool)
        ensures
            r == (old(self).active && can_move(old(self).movement, d, idx as int)),
            final(self).movement == (if r { moved(old(self).movement, d, idx as int) } else { old(self).movement }),
            same_but_path(*final(self), *old(self)),
    {
        if !self.active {
            return false;
        }
        match self.movement {
            Movement::Fixed(p) => {
                if idx != 0 {
                    return false;
                }
                match shift_point(p, d) {
                    Some(q) => {
                        self.movement = Movement::Fixed(q);
                        true
                    },
                    None => false,
                }
            },
            Movement::Curve(pts) => {
                if idx == 0 {
                    let s0 = shift_point(pts[0], d);
                    let s1 = shift_point(pts[1], d);
                    let s2 = shift_point(pts[2], d);
                    let s3 = shift_point(pts[3], d);
                    match (s0, s1, s2, s3) {
                        (Some(q0), Some(q1), Some(q2), Some(q3)) => {
                            self.movement = Movement::Curve([q0, q1, q2, q3]);
                            true
                        },
                        _ => {
                            assert(!shift_fits(pts[0], d) || !shift_fits(pts[1], d)
                                || !shift_fits(pts[2], d) || !shift_fits(pts[3], d));
                            false
                        },
                    }
                } else if idx < 4 {
                    match shift_point(pts[idx], d) {
                        Some(q) => {
                            let mut new_pts = pts;
                            new_pts[idx] = q;
                            assert(new_pts =~= replaced(pts, idx as int, q));
                            self.movement = Movement::Curve(new_pts);
                            true
                        },
                        None => false,
                    }
                } else {
                    false
                }
            },
        }
    }

    /// The marker's position at parameter `t / UNIT` of its path; a standing
    /// marker is at its point throughout.
    pub fn evaluated_position(&self, t: i32) -> (r: Point)
        requires
            position_defined(self.movement, t as int),
        ensures
            (r.x as int, r.y as int) == position_at(self.movement, t as int),
    {
        match self.movement {
            Movement::Fixed(p) => p,
            Movement::Curve(pts) => bez_at_t(pts, t),
        }
    }

    fn drag_point(&mut self, ev: PointerState, idx: usize, rect: ScreenRect)
        requires
            rect.wf(),
        ensures
            final(self).movement == after_drag(old(self).movement, old(self).active, ev, idx as int, rect),
            same_but_path(*final(self), *old(self)),
    {
        if ev.dragged {
            let d = screen_d_to_frac(ev.drag, rect);
            self.translate(d, idx);
        }
    }

    /// Applies one redraw's pointer events: drags move the selected marker's
    /// path (the main point moves all of it, a control point only itself), a
    /// double click toggles the path type. The result says whether the marker
    /// asked to be selected (a click or a double click); selection itself is
    /// the frame's to decide.
    pub fn handle_events(&mut self, ev: &MarkerEvents, rect: ScreenRect) -> (activated: bool)
        requires
            rect.wf(),
        ensures
            activated == activates(*ev),
            final(self).movement == after_events(old(self).movement, old(self).active, *ev, rect),
            same_but_path(*final(self), *old(self)),
    {
        self.drag_point(ev.primary, 0, rect);
        if ev.primary.double_clicked {
            self.toggle_path_type();
        }
        self.drag_point(ev.controls[0], 1, rect);
        self.drag_point(ev.controls[1], 2, rect);
        self.drag_point(ev.controls[2], 3, rect);
        ev.primary.clicked || ev.primary.double_clicked
    }
}

/// Pixel radius that a dot eases towards: the main point is drawn larger,
/// and both grow while hovered and more while dragged.
pub fn target_radius(primary: bool, ev: PointerState) -> (r: u32)
    ensures
        r == (if primary {
            if ev.dragged { 13u32 } else if ev.hovered { 11u32 } else { 10u32 }
        } else {
            if ev.dragged { 7u32 } else if ev.hovered { 6u32 } else { 5u32 }
        }),
{
    if primary {
        if ev.dragged { 13 } else if ev.hovered { 11 } else { 10 }
    } else {
        if ev.dragged { 7 } else if ev.hovered { 6 } else { 5 }
    }
}

/// Toggling a standing marker's path type twice brings it back to standing
/// at the same point.
pub proof fn lemma_toggle_twice(p: Point)
    requires
        toggle_fits(Movement::Fixed(p)),
    ensures
        toggle_fits(toggled(Movement::Fixed(p))),
        toggled(toggled(Movement::Fixed(p))) == Movement::Fixed(p),
{
}

} // verus!

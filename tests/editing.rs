use jugge::animation::Animation;
use jugge::geometry::{Delta, Point, ScreenPos, ScreenRect, ScreenVec, UNIT};
use jugge::person::{
    target_radius, MarkerColor, MarkerEvents, Movement, Person, PlayerType, PointerState,
};

fn p(x: i32, y: i32) -> Point {
    Point { x, y }
}

fn field() -> ScreenRect {
    ScreenRect { min: ScreenPos { x: 0, y: 0 }, max: ScreenPos { x: 1000, y: 1000 } }
}

fn idle() -> PointerState {
    PointerState {
        hovered: false,
        dragged: false,
        clicked: false,
        double_clicked: false,
        drag: ScreenVec { x: 0, y: 0 },
    }
}

fn click() -> PointerState {
    PointerState { clicked: true, ..idle() }
}

fn double_click() -> PointerState {
    PointerState { double_clicked: true, ..idle() }
}

fn drag(x: i32, y: i32) -> PointerState {
    PointerState { dragged: true, hovered: true, drag: ScreenVec { x, y }, ..idle() }
}

fn events(primary: PointerState) -> MarkerEvents {
    MarkerEvents { primary, controls: [idle(); 3] }
}

fn curve_of(m: &Movement) -> [Point; 4] {
    match m {
        Movement::Curve(pts) => *pts,
        Movement::Fixed(_) => panic!("expected a curve"),
    }
}

fn fixed_of(m: &Movement) -> Point {
    match m {
        Movement::Fixed(pt) => *pt,
        Movement::Curve(_) => panic!("expected a fixed point"),
    }
}

fn two_players() -> Animation {
    Animation::new(vec![
        Person::still(p(1000, 1000), "LW", PlayerType::Attacking, 0),
        Person::still(p(5000, 5000), "CB", PlayerType::Defending, 0),
    ])
}

#[test]
fn new_animation_numbers_markers() {
    let a = two_players();
    assert_eq!(a.frames.len(), 1);
    assert_eq!(a.cur_frame, 0);
    assert_eq!(a.next_id, 2);
    assert_eq!(a.frames[0][0].id, 0);
    assert_eq!(a.frames[0][1].id, 1);
    assert_eq!(a.frames[0][1].label, "CB");
    assert!(!a.frames[0][0].active);
}

#[test]
fn toggle_twice_returns_to_fixed_point() {
    let mut m = Person::still(p(1000, 1000), "PV", PlayerType::Attacking, 3);
    assert!(m.toggle_path_type());
    assert_eq!(curve_of(&m.movement), [p(1000, 1000), p(1500, 1000), p(2000, 1500), p(2000, 2000)]);
    assert!(m.toggle_path_type());
    assert_eq!(fixed_of(&m.movement), p(1000, 1000));
}

#[test]
fn toggle_refused_at_range_edge() {
    let mut m = Person::still(p(i32::MAX - 10, 0), "PV", PlayerType::Attacking, 3);
    assert!(!m.toggle_path_type());
    assert_eq!(fixed_of(&m.movement), p(i32::MAX - 10, 0));
}

#[test]
fn translate_needs_selection() {
    let pts = [p(0, 0), p(100, 0), p(200, 100), p(300, 300)];
    let mut m = Person::moving(pts, "RB", PlayerType::Defending, 1);
    let d = Delta { x: 10, y: -20 };
    assert!(!m.translate(d, 0));
    assert!(!m.translate(d, 2));
    assert_eq!(curve_of(&m.movement), pts);
    m.active = true;
    assert!(m.translate(d, 2));
    assert_eq!(curve_of(&m.movement), [p(0, 0), p(100, 0), p(210, 80), p(300, 300)]);
    assert!(m.translate(d, 0));
    assert_eq!(curve_of(&m.movement), [p(10, -20), p(110, -20), p(220, 60), p(310, 280)]);
    assert!(!m.translate(d, 4));
    assert!(!m.translate(Delta { x: i64::MAX, y: 0 }, 0));
}

#[test]
fn translate_fixed_only_by_main_point() {
    let mut m = Person::still(p(50, 50), "LB", PlayerType::Attacking, 1);
    m.active = true;
    assert!(!m.translate(Delta { x: 1, y: 1 }, 1));
    assert!(m.translate(Delta { x: 1, y: 1 }, 0));
    assert_eq!(fixed_of(&m.movement), p(51, 51));
}

#[test]
fn evaluated_position_of_both_kinds() {
    let m = Person::still(p(700, 800), "LB", PlayerType::Ball, 1);
    assert_eq!(m.evaluated_position(0), p(700, 800));
    assert_eq!(m.evaluated_position(4321), p(700, 800));
    let c = Person::moving([p(0, 0), p(0, 0), p(UNIT, UNIT), p(UNIT, UNIT)], "x", PlayerType::Ball, 2);
    assert_eq!(c.evaluated_position(5000), p(5000, 5000));
    assert_eq!(c.evaluated_position(UNIT), p(UNIT, UNIT));
}

#[test]
fn colors_follow_role_and_selection() {
    let mut a = Person::still(p(0, 0), "a", PlayerType::Attacking, 0);
    let mut d = Person::still(p(0, 0), "d", PlayerType::Defending, 1);
    let b = Person::still(p(0, 0), "", PlayerType::Ball, 2);
    assert_eq!(a.get_color(), MarkerColor::Red);
    assert_eq!(d.get_color(), MarkerColor::Blue);
    assert_eq!(b.get_color(), MarkerColor::Blue);
    a.active = true;
    d.active = true;
    assert_eq!(a.get_color(), MarkerColor::DarkRed);
    assert_eq!(d.get_color(), MarkerColor::DarkBlue);
}

#[test]
fn radii_by_pointer_state() {
    assert_eq!(target_radius(true, idle()), 10);
    assert_eq!(target_radius(true, PointerState { hovered: true, ..idle() }), 11);
    assert_eq!(target_radius(true, drag(1, 1)), 13);
    assert_eq!(target_radius(false, idle()), 5);
    assert_eq!(target_radius(false, PointerState { hovered: true, ..idle() }), 6);
    assert_eq!(target_radius(false, drag(1, 1)), 7);
}

#[test]
fn click_selects_exclusively() {
    let mut a = two_players();
    let r = a.apply_events(&vec![click(), idle()].into_iter().map(events).collect(), field());
    assert_eq!(r, Some(0));
    assert!(a.frames[0][0].active && !a.frames[0][1].active);
    let r = a.apply_events(&vec![idle(), click()].into_iter().map(events).collect(), field());
    assert_eq!(r, Some(1));
    assert!(!a.frames[0][0].active && a.frames[0][1].active);
    let r = a.apply_events(&vec![idle(), idle()].into_iter().map(events).collect(), field());
    assert_eq!(r, None);
    assert!(!a.frames[0][0].active && a.frames[0][1].active);
}

#[test]
fn earlier_marker_wins_a_shared_click() {
    let mut a = two_players();
    let r = a.apply_events(&vec![click(), click()].into_iter().map(events).collect(), field());
    assert_eq!(r, Some(0));
    assert!(a.frames[0][0].active && !a.frames[0][1].active);
    let count = a.frames[0].iter().filter(|m| m.active).count();
    assert_eq!(count, 1);
}

#[test]
fn at_most_one_selected_after_many_clicks() {
    let mut a = two_players();
    let seq = [(click(), idle()), (idle(), double_click()), (click(), click()), (idle(), idle())];
    for (e0, e1) in seq {
        a.apply_events(&vec![events(e0), events(e1)], field());
        assert!(a.frames[0].iter().filter(|m| m.active).count() <= 1);
    }
}

#[test]
fn double_click_toggles_and_selects() {
    let mut a = two_players();
    let r = a.apply_events(&vec![idle(), double_click()].into_iter().map(events).collect(), field());
    assert_eq!(r, Some(1));
    assert!(a.frames[0][1].active);
    assert_eq!(curve_of(&a.frames[0][1].movement)[0], p(5000, 5000));
}

#[test]
fn dragging_unselected_marker_does_nothing() {
    let mut a = two_players();
    a.apply_events(&vec![events(drag(10, 10)), events(idle())], field());
    assert_eq!(fixed_of(&a.frames[0][0].movement), p(1000, 1000));
}

#[test]
fn dragging_selected_marker_moves_it() {
    let mut a = two_players();
    a.apply_events(&vec![events(click())], field());
    a.apply_events(&vec![events(drag(10, -5))], field());
    assert_eq!(fixed_of(&a.frames[0][0].movement), p(1100, 950));
    // fewer records than markers: the rest is left alone
    assert_eq!(fixed_of(&a.frames[0][1].movement), p(5000, 5000));
}

#[test]
fn control_point_drag_needs_selection() {
    let pts = [p(1000, 1000), p(2000, 1000), p(2000, 2000), p(3000, 3000)];
    let mut a = Animation::new(vec![Person::moving(pts, "LW", PlayerType::Attacking, 0)]);
    let drag_second = MarkerEvents { primary: idle(), controls: [idle(), drag(10, 20), idle()] };
    a.apply_events(&vec![drag_second], field());
    assert_eq!(curve_of(&a.frames[0][0].movement), pts);
    a.apply_events(&vec![events(click())], field());
    assert!(a.frames[0][0].active);
    a.apply_events(&vec![drag_second], field());
    assert_eq!(
        curve_of(&a.frames[0][0].movement),
        [p(1000, 1000), p(2000, 1000), p(2100, 2200), p(3000, 3000)]
    );
}

#[test]
fn three_frame_scenario() {
    let mut a = Animation::new(vec![Person::still(p(1000, 1000), "PV", PlayerType::Attacking, 0)]);
    assert!(a.can_add_frame());
    a.add_frame();
    assert_eq!(a.cur_frame, 1);
    a.frames[1][0].movement = Movement::Curve([p(1000, 1000), p(2000, 1000), p(2000, 2000), p(3000, 3000)]);
    assert!(a.can_add_frame());
    a.add_frame();
    assert_eq!(a.frames.len(), 3);
    assert_eq!(a.cur_frame, 2);
    let c = curve_of(&a.frames[2][0].movement);
    assert_eq!(c[0], p(3000, 3000));
    assert_eq!((c[3].x - c[0].x, c[3].y - c[0].y), (2000, 2000));
    assert_eq!(fixed_of(&a.frames[0][0].movement), p(1000, 1000));
}

#[test]
fn add_frame_keeps_markers_and_gives_fresh_ids() {
    let mut a = two_players();
    a.apply_events(&vec![events(click())], field());
    a.add_frame();
    assert_eq!(a.frames[1].len(), a.frames[0].len());
    assert_eq!(a.frames[1][0].id, 2);
    assert_eq!(a.frames[1][1].id, 3);
    assert_eq!(a.next_id, 4);
    assert_eq!(a.frames[1][1].label, "CB");
    assert_eq!(a.frames[1][1].p_type, PlayerType::Defending);
    assert!(!a.frames[1][0].active);
    assert_eq!(fixed_of(&a.frames[1][0].movement), p(1000, 1000));
}

#[test]
fn add_frame_refused_when_curve_would_overflow() {
    let pts = [p(i32::MIN, 0), p(0, 0), p(0, 0), p(0, 0)];
    let a = Animation::new(vec![Person::moving(pts, "x", PlayerType::Ball, 0)]);
    assert!(!a.can_add_frame());
}

#[test]
fn select_frame_clamps() {
    let mut a = two_players();
    a.add_frame();
    a.add_frame();
    a.select_frame(0);
    assert_eq!(a.cur_frame, 0);
    a.select_frame(7);
    assert_eq!(a.cur_frame, 2);
}

#[test]
fn playback_clamps_past_the_end() {
    let pts = [p(0, 0), p(0, 0), p(UNIT, UNIT), p(UNIT, UNIT)];
    let mut a = Animation::new(vec![Person::moving(pts, "x", PlayerType::Ball, 0)]);
    a.add_frame();
    let end = 2 * UNIT as u64;
    assert_eq!(a.playback_frame(end), (1, UNIT - 1));
    assert_eq!(a.playback_frame(end + 12345), (1, UNIT - 1));
    assert_eq!(a.playback_positions(end), a.playback_positions(end - 1));
    assert_eq!(a.playback_positions(u64::MAX), a.playback_positions(end - 1));
}

#[test]
fn playback_interpolates_within_a_frame() {
    let pts = [p(0, 0), p(0, 0), p(UNIT, UNIT), p(UNIT, UNIT)];
    let mut a = Animation::new(vec![
        Person::moving(pts, "x", PlayerType::Ball, 0),
        Person::still(p(42, 24), "y", PlayerType::Attacking, 0),
    ]);
    a.add_frame();
    assert_eq!(a.playback_frame(0), (0, 0));
    assert_eq!(a.playback_frame(5000), (0, 5000));
    assert_eq!(a.playback_frame(15000), (1, 5000));
    assert_eq!(a.playback_positions(5000), vec![p(5000, 5000), p(42, 24)]);
    assert_eq!(a.playback_positions(0), vec![p(0, 0), p(42, 24)]);
    // second frame continues from (UNIT, UNIT) towards (2 UNIT, 2 UNIT)
    assert_eq!(a.playback_positions(15000), vec![p(15000, 15000), p(42, 24)]);
}

//! The frame sequence: ordered snapshots of every marker, editing of the
//! current one, and playback.
use vstd::prelude::*;
use crate::curve::can_continue;
use crate::geometry::{Point, ScreenRect, UNIT};
use crate::person::{
    activates, after_events, is_next_movement, next_fits, position_at, MarkerEvents, Movement,
    Person,
};

verus! {

/// At most one marker of `f` is selected.
pub open spec fn at_most_one_active(f: Seq<Person>) -> bool {
    forall|i: int, j: int|
        0 <= i < f.len() && 0 <= j < f.len() && #[trigger] f[i].active && #[trigger] f[j].active
            ==> i == j
}

/// The markers of `f` have pairwise distinct ids, all below `bound`.
pub open spec fn ids_fresh_below(f: Seq<Person>, bound: int) -> bool {
    &&& forall|i: int| 0 <= i < f.len() ==> (#[trigger] f[i].id) < bound
    &&& forall|i: int, j: int|
        0 <= i < f.len() && 0 <= j < f.len() && i != j ==> #[trigger] f[i].id != #[trigger] f[j].id
}

/// `next` is `prev` one frame on: the same players, in the same order, with
/// fresh ids from `first_id` on, each continuing its path.
pub open spec fn is_next_frame(prev: Seq<Person>, next: Seq<Person>, first_id: int) -> bool {
    &&& next.len() == prev.len()
    &&& forall|i: int| 0 <= i < prev.len() ==> {
        &&& is_next_movement(prev[i].movement, (#[trigger] next[i]).movement)
        &&& next[i].id == first_id + i
        &&& next[i].label@ == prev[i].label@
        &&& next[i].p_type == prev[i].p_type
        &&& !next[i].active
    }
}

/// Whether every path of `f` has a representable continuation.
pub open spec fn frame_continues(f: Seq<Person>) -> bool {
    forall|i: int| 0 <= i < f.len() ==> next_fits((#[trigger] f[i]).movement)
}

/// Index of the first of the first `n` event records that asks for
/// selection, if any.
pub open spec fn first_activation(events: Seq<MarkerEvents>, n: int) -> Option<usize>
    decreases n,
{
    if n <= 0 {
        None
    } else {
        match first_activation(events, n - 1) {
            Some(k) => Some(k),
            None => if activates(events[n - 1]) { Some((n - 1) as usize) } else { None },
        }
    }
}

/// The frame index and curve parameter (in units of `1 / UNIT`) shown at
/// playback time `time / UNIT` of an animation of `len` frames: time past
/// the end shows the end of the last frame.
pub open spec fn playback_clock(len: int, time: int) -> (int, int) {
    let end = len * UNIT - 1;
    let clamped = if time > end { end } else { time };
    (clamped / (UNIT as int), clamped % (UNIT as int))
}

/// An ordered sequence of frames, one of which is being edited.
pub struct Animation {
    pub frames: Vec<Vec<Person>>,
    pub cur_frame: usize,
    /// The id that the next new marker gets.
    pub next_id: u64,
}

impl Animation {
    pub open spec fn frame(&self, k: int) -> Seq<Person> {
        self.frames@[k]@
    }

    pub open spec fn wf(&self) -> bool {
        &&& self.frames@.len() >= 1
        &&& self.cur_frame < self.frames@.len()
        &&& forall|k: int| 0 <= k < self.frames@.len() ==> {
            &&& at_most_one_active(#[trigger] self.frame(k))
            &&& ids_fresh_below(self.frame(k), self.next_id as int)
        }
    }

    pub open spec fn last_frame(&self) -> Seq<Person> {
        self.frame(self.frames@.len() - 1)
    }

    /// Whether `add_frame` can extend the animation.
    pub open spec fn can_add_frame_spec(&self) -> bool {
        &&& frame_continues(self.last_frame())
        &&& self.next_id + self.last_frame().len() <= u64::MAX
    }

    /// An animation of the single frame `frame`, whose markers get the ids
    /// `0, 1, ...` in order and start unselected.
    pub fn new(frame: Vec<Person>) -> (r: Self)
        ensures
            r.wf(),
            r.frames@.len() == 1,
            r.cur_frame == 0,
            r.next_id == frame@.len(),
            r.frame(0).len() == frame@.len(),
            forall|i: int| 0 <= i < frame@.len() ==> {
                &&& (#[trigger] r.frame(0)[i]).id == i
                &&& !r.frame(0)[i].active
                &&& r.frame(0)[i].movement == frame@[i].movement
                &&& r.frame(0)[i].label@ == frame@[i].label@
                &&& r.frame(0)[i].p_type == frame@[i].p_type
            },
    {
        let mut frame = frame;
        let ghost orig = frame@;
        let n = frame.len();
        let mut i: usize = 0;
        while i < n
            invariant
                n == frame@.len(),
                orig.len() == n,
                0 <= i <= n,
                forall|j: int| 0 <= j < i ==> {
                    &&& (#[trigger] frame@[j]).id == j
                    &&& !frame@[j].active
                },
                forall|j: int| 0 <= j < n ==> {
                    &&& (#[trigger] frame@[j]).movement == orig[j].movement
                    &&& frame@[j].label@ == orig[j].label@
                    &&& frame@[j].p_type == orig[j].p_type
                },
                forall|j: int| i <= j < n ==> (#[trigger] frame@[j]) == orig[j],
            decreases n - i,
        {
            frame[i].id = i as u64;
            frame[i].active = false;
            i = i + 1;
        }
        let mut frames: Vec<Vec<Person>> = Vec::new();
        frames.push(frame);
        let r = Animation { frames, cur_frame: 0, next_id: n as u64 };
        assert(r.frame(0) == frame@);
        r
    }

    /// Whether `add_frame` can extend the animation: every path of the last
    /// frame has a representable continuation and ids remain.
    pub fn can_add_frame(&self) -> (r: bool)
        requires
            self.wf(),
        ensures
            r == self.can_add_frame_spec(),
    {
        let last = &self.frames[self.frames.len() - 1];
        let n = last.len();
        if self.next_id > u64::MAX - n as u64 {
            return false;
        }
        let mut i: usize = 0;
        while i < n
            invariant
                n == last@.len(),
                *last == self.frames@[self.frames@.len() - 1],
                0 <= i <= n,
                forall|j: int| 0 <= j < i ==> next_fits((#[trigger] last@[j]).movement),
            decreases n - i,
        {
            if let Movement::Curve(pts) = last[i].movement {
                if !can_continue(pts) {
                    return false;
                }
            }
            i = i + 1;
        }
        true
    }

    /// Appends the next frame, derived from the last one marker by marker
    /// (see `Person::from_prev`), and makes it the current frame.
    pub fn add_frame(&mut self)
        requires
            old(self).wf(),
            old(self).can_add_frame_spec(),
        ensures
            final(self).wf(),
            final(self).frames@.len() == old(self).frames@.len() + 1,
            forall|k: int| 0 <= k < old(self).frames@.len() ==> #[trigger] final(self).frames@[k] == old(self).frames@[k],
            is_next_frame(old(self).last_frame(), final(self).last_frame(), old(self).next_id as int),
            final(self).cur_frame == old(self).frames@.len(),
            final(self).next_id == old(self).next_id + old(self).last_frame().len(),
    {
        let len = self.frames.len();
        let mut new_frame: Vec<Person> = Vec::new();
        let n = self.frames[len - 1].len();
        let ghost prev = self.last_frame();
        let mut i: usize = 0;
        while i < n
            invariant
                len == self.frames@.len(),
                len >= 1,
                prev == self.last_frame(),
                n == prev.len(),
                frame_continues(prev),
                self.next_id + n <= u64::MAX,
                0 <= i <= n,
                new_frame@.len() == i,
                forall|j: int| 0 <= j < i ==> {
                    &&& is_next_movement(prev[j].movement, (#[trigger] new_frame@[j]).movement)
                    &&& new_frame@[j].id == self.next_id + j
                    &&& new_frame@[j].label@ == prev[j].label@
                    &&& new_frame@[j].p_type == prev[j].p_type
                    &&& !new_frame@[j].active
                },
            decreases n - i,
        {
            let id = self.next_id + i as u64;
            let p = Person::from_prev(&self.frames[len - 1][i], id);
            new_frame.push(p);
            i = i + 1;
        }
        let ghost base = self.next_id as int;
        self.frames.push(new_frame);
        self.cur_frame = len;
        self.next_id = self.next_id + n as u64;
        assert(self.last_frame() == new_frame@);
        assert forall|k: int| 0 <= k < self.frames@.len() implies {
            &&& at_most_one_active(#[trigger] self.frame(k))
            &&& ids_fresh_below(self.frame(k), self.next_id as int)
        } by {
            if k == len {
                assert forall|a: int, b: int|
                    0 <= a < n && 0 <= b < n && a != b implies #[trigger] self.frame(k)[a].id
                        != #[trigger] self.frame(k)[b].id by {
                    assert(self.frame(k)[a].id == base + a);
                    assert(self.frame(k)[b].id == base + b);
                }
            } else {
                assert(self.frame(k) == old(self).frame(k));
            }
        }
    }

    /// Applies one redraw's pointer events to the current frame, event
    /// record `i` to marker `i` in order (markers without a record are left
    /// alone). Where some marker asks for selection, the first such marker
    /// becomes the only selected one of the frame; its index is returned.
    pub fn apply_events(&mut self, events: &Vec<MarkerEvents>, rect: ScreenRect) -> (r: Option<usize>)
        requires
            old(self).wf(),
            rect.wf(),
        ensures
            final(self).wf(),
            final(self).frames@.len() == old(self).frames@.len(),
            final(self).cur_frame == old(self).cur_frame,
            final(self).next_id == old(self).next_id,
            forall|k: int| 0 <= k < old(self).frames@.len() && k != old(self).cur_frame
                ==> #[trigger] final(self).frames@[k] == old(self).frames@[k],
            ({
                let c = old(self).cur_frame as int;
                let n = old(self).frame(c).len();
                let m = if events@.len() < n { events@.len() as int } else { n as int };
                &&& r == first_activation(events@, m)
                &&& final(self).frame(c).len() == n
                &&& forall|i: int| 0 <= i < n ==> {
                    let o = old(self).frame(c)[i];
                    let f = #[trigger] final(self).frame(c)[i];
                    &&& f.id == o.id
                    &&& f.label@ == o.label@
                    &&& f.p_type == o.p_type
                    &&& f.movement == (if i < events@.len() {
                        after_events(o.movement, o.active, events@[i], rect)
                    } else {
                        o.movement
                    })
                    &&& f.active == (match r {
                        Some(k) => i == k as int,
                        None => o.active,
                    })
                }
            }),
    {
        let cur = self.cur_frame;
        let ghost c = cur as int;
        let mut frame: Vec<Person> = Vec::new();
        std::mem::swap(&mut frame, &mut self.frames[cur]);
        assert(frame@ == old(self).frame(c));
        let r = apply_to_frame(&mut frame, events, rect);
        std::mem::swap(&mut frame, &mut self.frames[cur]);
        assert forall|kk: int| 0 <= kk < self.frames@.len() implies {
            &&& at_most_one_active(#[trigger] self.frame(kk))
            &&& ids_fresh_below(self.frame(kk), self.next_id as int)
        } by {
            if kk != c {
                assert(self.frame(kk) == old(self).frame(kk));
            } else {
                let n = old(self).frame(c).len();
                assert(ids_fresh_below(old(self).frame(kk), self.next_id as int));
                assert forall|a: int, b: int|
                    0 <= a < n && 0 <= b < n && a != b implies #[trigger] self.frame(kk)[a].id
                        != #[trigger] self.frame(kk)[b].id by {
                    assert(old(self).frame(c)[a].id != old(self).frame(c)[b].id);
                }
                assert forall|a: int| 0 <= a < n implies (#[trigger] self.frame(kk)[a].id) < self.next_id by {
                    assert(old(self).frame(c)[a].id < self.next_id);
                }
            }
        }
        r
    }
}

/// Applies event record `i` to marker `i` of `frame` in order; the first
/// marker that asks for selection becomes the only selected one.
fn apply_to_frame(frame: &mut Vec<Person>, events: &Vec<MarkerEvents>, rect: ScreenRect) -> (r: Option<usize>)
    requires
        rect.wf(),
        at_most_one_active(old(frame)@),
    ensures
        at_most_one_active(final(frame)@),
        ({
            let n = old(frame)@.len();
            let m = if events@.len() < n { events@.len() as int } else { n as int };
            &&& r == first_activation(events@, m)
            &&& final(frame)@.len() == n
            &&& forall|i: int| 0 <= i < n ==> {
                let o = old(frame)@[i];
                let f = #[trigger] final(frame)@[i];
                &&& f.id == o.id
                &&& f.label@ == o.label@
                &&& f.p_type == o.p_type
                &&& f.movement == (if i < events@.len() {
                    after_events(o.movement, o.active, events@[i], rect)
                } else {
                    o.movement
                })
                &&& f.active == (match r {
                    Some(k) => i == k as int,
                    None => o.active,
                })
            }
        }),
{
    let n = frame.len();
    let ghost before = frame@;
    let mut first: Option<usize> = None;
    let mut i: usize = 0;
    while i < n
        invariant
            rect.wf(),
            n == before.len(),
            frame@.len() == n,
            0 <= i <= n,
            first == first_activation(events@, if events@.len() < i { events@.len() as int } else { i as int }),
            first matches Some(k) ==> k < i,
            forall|j: int| 0 <= j < n ==> {
                let o = before[j];
                let f = #[trigger] frame@[j];
                &&& f.id == o.id
                &&& f.label@ == o.label@
                &&& f.p_type == o.p_type
                &&& f.active == o.active
                &&& f.movement == (if j < i && j < events@.len() {
                    after_events(o.movement, o.active, events@[j], rect)
                } else {
                    o.movement
                })
            },
        decreases n - i,
    {
        if i < events.len() {
            let act = frame[i].handle_events(&events[i], rect);
            if act && first.is_none() {
                first = Some(i);
            }
        }
        i = i + 1;
    }
    if let Some(k) = first {
        let mut j: usize = 0;
        while j < n
            invariant
                n == before.len(),
                frame@.len() == n,
                0 <= j <= n,
                k < n,
                forall|q: int| 0 <= q < n ==> {
                    let o = before[q];
                    let f = #[trigger] frame@[q];
                    &&& f.id == o.id
                    &&& f.label@ == o.label@
                    &&& f.p_type == o.p_type
                    &&& f.active == (if q < j { q == k } else { o.active })
                    &&& f.movement == (if q < events@.len() {
                        after_events(o.movement, o.active, events@[q], rect)
                    } else {
                        o.movement
                    })
                },
            decreases n - j,
        {
            frame[j].active = j == k;
            j = j + 1;
        }
    }
    assert forall|a: int, b: int|
        0 <= a < n && 0 <= b < n && #[trigger] frame@[a].active && #[trigger] frame@[b].active
            implies a == b by {
        if first is None {
            assert(before[a].active && before[b].active);
        }
    }
    first
}

impl Animation {
    /// Makes frame `idx` the current one, or the last frame where `idx` is
    /// past the end.
    pub fn select_frame(&mut self, idx: usize)
        requires
            old(self).wf(),
        ensures
            final(self).wf(),
            final(self).frames == old(self).frames,
            final(self).next_id == old(self).next_id,
            final(self).cur_frame == (if idx < old(self).frames@.len() { idx as int } else { old(self).frames@.len() - 1 }),
    {
        let len = self.frames.len();
        self.cur_frame = if idx < len { idx } else { len - 1 };
        assert forall|k: int| 0 <= k < self.frames@.len() implies {
            &&& at_most_one_active(#[trigger] self.frame(k))
            &&& ids_fresh_below(self.frame(k), self.next_id as int)
        } by {
            assert(self.frame(k) == old(self).frame(k));
        }
    }
}

impl Animation {
    /// The frame index and curve parameter shown at playback time
    /// `time / UNIT` (in frames since the start).
    pub fn playback_frame(&self, time: u64) -> (r: (usize, i32))
        requires
            self.wf(),
        ensures
            (r.0 as int, r.1 as int) == playback_clock(self.frames@.len() as int, time as int),
            r.0 < self.frames@.len(),
            0 <= r.1 < UNIT,
    {
        let len = self.frames.len();
        let u: u128 = UNIT as u128;
        let end: u128 = (len as u128) * u - 1;
        let clamped: u128 = if (time as u128) > end { end } else { time as u128 };
        let idx: u128 = clamped / u;
        let t: u128 = clamped % u;
        proof {
            vstd::arithmetic::div_mod::lemma_fundamental_div_mod(clamped as int, u as int);
            assert(idx < len) by (nonlinear_arith)
                requires
                    clamped == u * idx + t,
                    0 <= t,
                    clamped <= len * u - 1,
                    u > 0;
        }
        (idx as usize, t as i32)
    }

    /// Where each marker of the frame shown at playback time `time / UNIT`
    /// stands: its position at the fractional part along its path.
    pub fn playback_positions(&self, time: u64) -> (r: Vec<Point>)
        requires
            self.wf(),
        ensures
            ({
                let (k, t) = playback_clock(self.frames@.len() as int, time as int);
                &&& r@.len() == self.frame(k).len()
                &&& forall|i: int| 0 <= i < r@.len() ==>
                    (#[trigger] r@[i].x as int, r@[i].y as int) == position_at(self.frame(k)[i].movement, t)
            }),
    {
        let (k, t) = self.playback_frame(time);
        let frame = &self.frames[k];
        let mut out: Vec<Point> = Vec::new();
        let mut i: usize = 0;
        while i < frame.len()
            invariant
                *frame == self.frames@[k as int],
                0 <= t < UNIT,
                0 <= i <= frame@.len(),
                out@.len() == i,
                forall|j: int| 0 <= j < i ==>
                    (#[trigger] out@[j].x as int, out@[j].y as int) == position_at(frame@[j].movement, t as int),
            decreases frame@.len() - i,
        {
            out.push(frame[i].evaluated_position(t));
            i = i + 1;
        }
        out
    }
}

/// Selection is exclusive: in every frame of a well-formed animation, in
/// particular after any run of `apply_events`, at most one marker is
/// selected.
pub proof fn lemma_selection_exclusive(a: Animation, k: int)
    requires
        a.wf(),
        0 <= k < a.frames@.len(),
    ensures
        at_most_one_active(a.frame(k)),
{
}

/// Appending a frame keeps the number of markers; standing markers keep
/// their point and moving ones keep their total displacement.
pub proof fn lemma_frame_append(prev: Seq<Person>, next: Seq<Person>, first_id: int)
    requires
        is_next_frame(prev, next, first_id),
    ensures
        next.len() == prev.len(),
        forall|i: int| 0 <= i < prev.len() ==> match (#[trigger] prev[i]).movement {
            Movement::Fixed(p) => next[i].movement == Movement::Fixed(p),
            Movement::Curve(pts) => match next[i].movement {
                Movement::Curve(r) => r[3].x - r[0].x == pts[3].x - pts[0].x
                    && r[3].y - r[0].y == pts[3].y - pts[0].y,
                Movement::Fixed(_) => false,
            },
        },
{
    assert forall|i: int| 0 <= i < prev.len() implies match (#[trigger] prev[i]).movement {
        Movement::Fixed(p) => next[i].movement == Movement::Fixed(p),
        Movement::Curve(pts) => match next[i].movement {
            Movement::Curve(r) => r[3].x - r[0].x == pts[3].x - pts[0].x
                && r[3].y - r[0].y == pts[3].y - pts[0].y,
            Movement::Fixed(_) => false,
        },
    } by {
        if let Movement::Curve(pts) = prev[i].movement {
            if let Movement::Curve(r) = next[i].movement {
                crate::curve::lemma_continuation_displacement(pts, r);
            }
        }
    }
}

/// Playback time at or past the end shows the same state as the last
/// instant before the end: the last frame, one step short of its end.
pub proof fn lemma_playback_clamp(len: int, time: int)
    requires
        len >= 1,
        time >= len * UNIT,
    ensures
        playback_clock(len, time) == playback_clock(len, len * UNIT - 1),
        playback_clock(len, time) == (len - 1, UNIT - 1),
{
    let u = UNIT as int;
    let end = len * u - 1;
    assert(end == (len - 1) * u + (u - 1)) by (nonlinear_arith)
        requires end == len * u - 1;
    vstd::arithmetic::div_mod::lemma_fundamental_div_mod_converse(end, u, len - 1, u - 1);
}

} // verus!

//! Gesture classification over the raw input-event stream.
//!
//! The classifier turns raw button, move and wheel events into discrete
//! gestures — click, double click, drag, wheel, enter and leave — using
//! only timing and position heuristics.  The classification itself is a
//! family of pure transition functions over an explicit state value
//! (`GrabState`); the surrounding input hook, thread and timer plumbing
//! feed them events and carry out the returned actions.

use vstd::prelude::*;

verus! {

use crate::error::Error;
use crate::polygon::PolygonId;
use crate::registry::{filtered_ids, Registry};
use crate::utils::{spec_clamp, Convert, Frac, COORD_LIMIT};
use vstd::string::StringExecFns;

/// A press-release pair shorter than this (milliseconds) counts as a
/// click; a longer one that moved counts as a drag.
pub const CLICK_MAX_MS: u64 = 150;

/// Two completed clicks within this window (milliseconds) count as a
/// double click; a tentative single click is deferred by this long.
pub const DOUBLE_CLICK_MS: u64 = 250;

/// A position in viewport coordinates: each axis is a fraction of the
/// physical screen width.
#[derive(Clone, Copy, Debug, PartialEq, Eq, Structural)]
pub struct Position {
    pub x: Frac,
    pub y: Frac,
}

impl Position {
    pub open spec fn wf(self) -> bool {
        self.x.wf() && self.y.wf()
    }

    /// Whether two positions denote the same point, whatever the
    /// denominators.
    pub open spec fn spec_same_value(self, other: Position) -> bool {
        self.x.spec_same_value(other.x) && self.y.spec_same_value(other.y)
    }

    pub fn same_value(&self, other: &Position) -> (r: bool)
        requires
            self.wf(),
            other.wf(),
        ensures
            r == self.spec_same_value(*other),
    {
        self.x.same_value(&other.x) && self.y.same_value(&other.y)
    }
}

/// A classified gesture, as delivered to subscribers.
#[derive(Debug, Clone)]
pub enum Event {
    LeftClick { x: Frac, y: Frac },
    DoubleClick { x: Frac, y: Frac },
    RightClick { x: Frac, y: Frac },
    Drag { from: Position, to: Position },
    MouseMove { x: Frac, y: Frac },
    MouseEnter(Vec<PolygonId>),
    MouseLeave,
    Wheel { x: i64, y: i64 },
    Error(Error),
}

impl Event {
    /// The topic name under which each gesture kind is published.
    pub open spec fn spec_topic(&self) -> Seq<char> {
        match self {
            Event::LeftClick { .. } => "POLYGON_LEFT_CLICK"@,
            Event::DoubleClick { .. } => "POLYGON_DOUBLE_CLICK"@,
            Event::RightClick { .. } => "POLYGON_RIGHT_CLICK"@,
            Event::MouseMove { .. } => "POLYGON_MOUSE_MOVE"@,
            Event::MouseEnter(..) => "POLYGON_MOUSE_ENTER"@,
            Event::MouseLeave => "POLYGON_MOUSE_LEAVE"@,
            Event::Wheel { .. } => "POLYGON_WHEEL"@,
            Event::Drag { .. } => "POLYGON_DRAG"@,
            Event::Error(..) => "POLYGON_ERROR"@,
        }
    }

    /// Render the topic name.
    pub fn topic(&self) -> (r: String)
        ensures
            r@ == self.spec_topic(),
    {
        match self {
            Event::LeftClick { .. } => String::from_str("POLYGON_LEFT_CLICK"),
            Event::DoubleClick { .. } => String::from_str("POLYGON_DOUBLE_CLICK"),
            Event::RightClick { .. } => String::from_str("POLYGON_RIGHT_CLICK"),
            Event::MouseMove { .. } => String::from_str("POLYGON_MOUSE_MOVE"),
            Event::MouseEnter(..) => String::from_str("POLYGON_MOUSE_ENTER"),
            Event::MouseLeave => String::from_str("POLYGON_MOUSE_LEAVE"),
            Event::Wheel { .. } => String::from_str("POLYGON_WHEEL"),
            Event::Drag { .. } => String::from_str("POLYGON_DRAG"),
            Event::Error(..) => String::from_str("POLYGON_ERROR"),
        }
    }
}

/// What a left-button release was classified as.
#[derive(Debug, Clone, Copy, PartialEq, Eq, Structural)]
pub enum ReleaseOutcome {
    /// No gesture: the release happened inside a registered region, or the
    /// timing matched no pattern.
    Nothing,
    /// Tentative single click: the caller schedules a check after the
    /// double-click window and emits `LeftClick` only if no double click
    /// was confirmed meanwhile (see `deferred_click`).
    DeferClick { x: Frac, y: Frac },
    /// Immediate double click: the caller emits it at once and sets the
    /// double-click flag that suppresses the pending deferred click.
    DoubleClick { x: Frac, y: Frac },
    /// Drag from the press position to the release position.
    Drag { from: Position, to: Position },
}

/// Gesture-disambiguation state owned by the event classifier: the cursor
/// position, the last press, the last completed click, and whether the
/// cursor was inside any displayed polygon.  All times are
/// monotonic-clock milliseconds; the cursor position is physical pixels.
#[derive(Debug, Clone, Copy)]
pub struct GrabState {
    /// Physical screen width, captured once at startup.
    pub width: i64,
    /// Cursor position from the last mouse move, physical pixels.
    pub mouse_x: i64,
    pub mouse_y: i64,
    /// When and where the left button was last pressed.
    pub press_time: u64,
    pub press_pos: Position,
    /// When and where the last completed click happened.
    pub last_click_time: u64,
    pub last_click_pos: Position,
    /// Whether the cursor was inside at least one displayed polygon at the
    /// last mouse move.
    pub mouse_in_polygon: bool,
}

impl GrabState {
    pub open spec fn wf(self) -> bool {
        &&& 1 <= self.width <= COORD_LIMIT
        &&& self.press_pos.wf()
        &&& self.last_click_pos.wf()
    }

    /// The cursor position in viewport coordinates, clamped into `[0, 1]`.
    pub open spec fn spec_mouse_position(self) -> Position {
        Position {
            x: Frac {
                num: spec_clamp(self.mouse_x as int, self.width as int) as i64,
                den: self.width,
            },
            y: Frac {
                num: spec_clamp(self.mouse_y as int, self.width as int) as i64,
                den: self.width,
            },
        }
    }

    /// The release is a tentative single click: the press-release pair was
    /// short and no click completed within the double-click window.
    pub open spec fn is_deferred_click(self, now: u64) -> bool {
        &&& now - self.press_time < CLICK_MAX_MS
        &&& now - self.last_click_time > DOUBLE_CLICK_MS
    }

    /// The release completes a double click: a short press-release pair,
    /// at the same position as the last completed click, within the
    /// double-click window of it.
    pub open spec fn is_double_click(self, now: u64, pos: Position) -> bool {
        &&& now - self.press_time < CLICK_MAX_MS
        &&& pos.spec_same_value(self.last_click_pos)
        &&& now - self.last_click_time <= DOUBLE_CLICK_MS
    }

    /// The release ends a drag: a long press-release pair that moved away
    /// from the press position.
    pub open spec fn is_drag(self, now: u64, pos: Position) -> bool {
        &&& now - self.press_time >= CLICK_MAX_MS
        &&& !pos.spec_same_value(self.press_pos)
    }

    /// Fresh classifier state: cursor at the origin, press and click
    /// history set to the current instant, cursor outside all polygons.
    pub fn new(now: u64, width: i64) -> (s: GrabState)
        requires
            1 <= width <= COORD_LIMIT,
        ensures
            s.wf(),
            s.width == width,
            s.mouse_x == 0 && s.mouse_y == 0,
            s.press_time == now && s.last_click_time == now,
            s.press_pos == s.spec_mouse_position(),
            s.last_click_pos == s.spec_mouse_position(),
            !s.mouse_in_polygon,
    {
        let origin = Position { x: Frac { num: 0, den: width }, y: Frac { num: 0, den: width } };
        GrabState {
            width,
            mouse_x: 0,
            mouse_y: 0,
            press_time: now,
            press_pos: origin,
            last_click_time: now,
            last_click_pos: origin,
            mouse_in_polygon: false,
        }
    }

    /// The cursor position in viewport coordinates.
    pub fn mouse_position(&self) -> (r: Position)
        requires
            self.wf(),
        ensures
            r == self.spec_mouse_position(),
            r.wf(),
    {
        let conv = Convert::new(self.width);
        let (x, y) = conv.to_viewport(self.mouse_x, self.mouse_y);
        Position { x, y }
    }

    /// Left button pressed: record the instant and the cursor position;
    /// nothing is emitted.
    pub fn on_left_press(&mut self, now: u64)
        requires
            old(self).wf(),
        ensures
            final(self).wf(),
            *final(self) == (GrabState {
                press_time: now,
                press_pos: old(self).spec_mouse_position(),
                ..*old(self)
            }),
    {
        let pos = self.mouse_position();
        self.press_time = now;
        self.press_pos = pos;
    }

    /// Left button released: classify the release against the press and
    /// click history.  `polygons` is the registry's cursor-containment
    /// snapshot; when it is non-empty the gesture belongs to a registered
    /// region and nothing is emitted or recorded.  Otherwise the click
    /// history is updated and the release is classified as a tentative
    /// single click, a double click, a drag, or nothing.
    pub fn on_left_release(&mut self, now: u64, polygons: &Vec<PolygonId>) -> (r: ReleaseOutcome)
        requires
            old(self).wf(),
            old(self).press_time <= now,
            old(self).last_click_time <= now,
        ensures
            final(self).wf(),
            ({
                let pos = old(self).spec_mouse_position();
                let outside = polygons@.len() == 0;
                &&& !outside ==> *final(self) == *old(self) && r is Nothing
                &&& outside ==> *final(self) == (GrabState {
                    last_click_time: now,
                    last_click_pos: pos,
                    ..*old(self)
                })
                &&& outside && old(self).is_deferred_click(now) ==> (r matches
                    ReleaseOutcome::DeferClick { x, y } && x == pos.x && y == pos.y)
                &&& outside && !old(self).is_deferred_click(now) && old(self).is_double_click(
                    now,
                    pos,
                ) ==> (r matches ReleaseOutcome::DoubleClick { x, y } && x == pos.x && y == pos.y)
                &&& outside && !old(self).is_deferred_click(now) && !old(self).is_double_click(
                    now,
                    pos,
                ) && old(self).is_drag(now, pos) ==> (r matches ReleaseOutcome::Drag { from, to }
                    && from == old(self).press_pos && to == pos)
                &&& outside && !old(self).is_deferred_click(now) && !old(self).is_double_click(
                    now,
                    pos,
                ) && !old(self).is_drag(now, pos) ==> r is Nothing
            }),
    {
        if polygons.len() > 0 {
            return ReleaseOutcome::Nothing;
        }
        let pos = self.mouse_position();
        let elapsed = now - self.press_time;
        let last_click_elapsed = now - self.last_click_time;
        let old_last_pos = self.last_click_pos;
        self.last_click_pos = pos;
        self.last_click_time = now;
        if elapsed < CLICK_MAX_MS && last_click_elapsed > DOUBLE_CLICK_MS {
            return ReleaseOutcome::DeferClick { x: pos.x, y: pos.y };
        }
        if elapsed < CLICK_MAX_MS && pos.same_value(&old_last_pos) && last_click_elapsed
            <= DOUBLE_CLICK_MS {
            return ReleaseOutcome::DoubleClick { x: pos.x, y: pos.y };
        }
        if elapsed >= CLICK_MAX_MS && !pos.same_value(&self.press_pos) {
            return ReleaseOutcome::Drag { from: self.press_pos, to: pos };
        }
        ReleaseOutcome::Nothing
    }

    /// Right button released: a right click at the cursor position, unless
    /// the cursor is inside a registered region.
    pub fn on_right_release(&self, polygons: &Vec<PolygonId>) -> (r: Option<Event>)
        requires
            self.wf(),
        ensures
            polygons@.len() == 0 ==> (r matches Some(e) && e matches Event::RightClick { x, y }
                && x == self.spec_mouse_position().x && y == self.spec_mouse_position().y),
            polygons@.len() > 0 ==> r is None,
    {
        if polygons.len() == 0 {
            let pos = self.mouse_position();
            Some(Event::RightClick { x: pos.x, y: pos.y })
        } else {
            None
        }
    }
}

/// The deferred single-click check, run once the double-click window has
/// passed: if no double click was confirmed meanwhile, the tentative
/// click from that window is emitted; otherwise it is suppressed.
pub fn deferred_click(is_double_click: bool, x: Frac, y: Frac) -> (r: Option<Event>)
    ensures
        is_double_click ==> r is None,
        !is_double_click ==> (r matches Some(e) && e matches Event::LeftClick { x: ex, y: ey }
            && ex == x && ey == y),
{
    if is_double_click {
        None
    } else {
        Some(Event::LeftClick { x, y })
    }
}

/// A wheel event is forwarded unconditionally, not gated by containment.
pub fn classify_wheel(delta_x: i64, delta_y: i64) -> (r: Event)
    ensures
        r == (Event::Wheel { x: delta_x, y: delta_y }),
{
    Event::Wheel { x: delta_x, y: delta_y }
}

/// Everything one mouse move results in, in emission order: first the
/// window's pointer-input mode change with the boundary event, then the
/// movement event itself.
pub struct MoveActions {
    /// `Some(ignore)` when the host window must change whether it ignores
    /// pointer input.
    pub set_ignore_cursor_events: Option<bool>,
    /// `MouseEnter` (with the ids of the polygons containing the cursor)
    /// or `MouseLeave`, when containment starts or ends.
    pub boundary: Option<Event>,
    /// The movement event, always emitted, in viewport coordinates.
    pub movement: Event,
}

impl GrabState {
    /// Mouse moved to physical position `(x, y)`: record it, recompute
    /// every polygon's containment flag, and derive the actions.  When
    /// containment goes from none to some, the window starts accepting
    /// pointer input and `MouseEnter` is emitted; when it goes from some
    /// to none, the window ignores pointer input again and `MouseLeave` is
    /// emitted; `MouseMove` is always emitted.
    pub fn on_mouse_move(&mut self, registry: &mut Registry, x: i64, y: i64) -> (r: MoveActions)
        requires
            old(self).wf(),
            old(registry).wf(),
            old(registry).initialized,
            -COORD_LIMIT <= x <= COORD_LIMIT,
            -COORD_LIMIT <= y <= COORD_LIMIT,
        ensures
            final(self).wf(),
            final(registry).wf(),
            final(registry)@ == old(registry)@.containment_t((x, y)),
            final(self).width == old(self).width,
            final(self).mouse_x == x && final(self).mouse_y == y,
            final(self).press_time == old(self).press_time,
            final(self).press_pos == old(self).press_pos,
            final(self).last_click_time == old(self).last_click_time,
            final(self).last_click_pos == old(self).last_click_pos,
            ({
                let inside = exists|k: Seq<char>|
                    final(registry)@.cursor_in_set().contains(k);
                let entering = inside && !old(self).mouse_in_polygon;
                let leaving = !inside && old(self).mouse_in_polygon;
                &&& entering ==> r.set_ignore_cursor_events == Some(false) && (
                r.boundary matches Some(e) && e matches Event::MouseEnter(ids)
                    && ids.deep_view() == filtered_ids(
                    old(registry).polygons@,
                    |m: crate::polygon::PolygonModel|
                        m.display && crate::utils::spec_point_in_polygon(m.points, (x, y)),
                )) && final(self).mouse_in_polygon
                &&& leaving ==> r.set_ignore_cursor_events == Some(true) && (
                r.boundary matches Some(e) && e is MouseLeave) && !final(self).mouse_in_polygon
                &&& !entering && !leaving ==> r.set_ignore_cursor_events is None
                    && r.boundary is None && final(self).mouse_in_polygon == old(self).mouse_in_polygon
                &&& (r.movement matches Event::MouseMove { x: mx, y: my } && mx == final(self).spec_mouse_position().x
                    && my == final(self).spec_mouse_position().y)
            }),
    {
        self.mouse_x = x;
        self.mouse_y = y;
        let ids = registry.update_containment(x, y);
        let inside = ids.len() > 0;
        proof {
            if ids.deep_view().len() > 0 {
                assert(ids.deep_view().contains(ids.deep_view()[0]));
            } else {
                assert forall|k: Seq<char>| !registry@.cursor_in_set().contains(k) by {
                    if registry@.cursor_in_set().contains(k) {
                        assert(ids.deep_view().contains(k));
                    }
                }
            }
        }
        let pos = self.mouse_position();
        let movement = Event::MouseMove { x: pos.x, y: pos.y };
        if inside && !self.mouse_in_polygon {
            self.mouse_in_polygon = true;
            MoveActions {
                set_ignore_cursor_events: Some(false),
                boundary: Some(Event::MouseEnter(ids)),
                movement,
            }
        } else if !inside && self.mouse_in_polygon {
            self.mouse_in_polygon = false;
            MoveActions {
                set_ignore_cursor_events: Some(true),
                boundary: Some(Event::MouseLeave),
                movement,
            }
        } else {
            MoveActions { set_ignore_cursor_events: None, boundary: None, movement }
        }
    }
}

} // verus!

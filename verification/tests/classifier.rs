use polygon::grab::{classify_wheel, deferred_click, Event, GrabState, ReleaseOutcome};
use polygon::registry::Registry;
use polygon::utils::Frac;

const WIDTH: i64 = 1000;

fn ready() -> Registry {
    let mut reg = Registry::new();
    reg.init(WIDTH);
    reg
}

fn square(scale: i64) -> Vec<(i64, i64)> {
    vec![(0, 0), (scale, 0), (scale, scale), (0, scale)]
}

fn no_polygons() -> Vec<String> {
    Vec::new()
}

#[test]
fn quick_release_defers_a_single_click() {
    // Press at (100, 100), release at (100, 100) after 50 ms, with no
    // prior click in the last 250 ms: a deferred LeftClick at (100, 100).
    let mut reg = ready();
    let mut state = GrabState::new(0, WIDTH);
    state.on_mouse_move(&mut reg, 100, 100);
    state.on_left_press(1000);
    let outcome = state.on_left_release(1050, &no_polygons());
    let expected = Frac::new(100, WIDTH);
    assert_eq!(outcome, ReleaseOutcome::DeferClick { x: expected, y: expected });
    // No second click arrives, so after the double-click window the
    // deferred check emits exactly the click.
    match outcome {
        ReleaseOutcome::DeferClick { x, y } => {
            let emitted = deferred_click(false, x, y);
            match emitted {
                Some(Event::LeftClick { x: ex, y: ey }) => {
                    assert_eq!(ex, expected);
                    assert_eq!(ey, expected);
                }
                other => panic!("expected LeftClick, got {:?}", other),
            }
        }
        other => panic!("expected DeferClick, got {:?}", other),
    }
}

#[test]
fn two_quick_clicks_become_a_double_click() {
    // Press/release at (100, 100) twice within 250 ms of each other, each
    // shorter than 150 ms: the second release is an immediate DoubleClick
    // and the pending LeftClick is suppressed.
    let mut reg = ready();
    let mut state = GrabState::new(0, WIDTH);
    state.on_mouse_move(&mut reg, 100, 100);
    state.on_left_press(1000);
    let first = state.on_left_release(1050, &no_polygons());
    let expected = Frac::new(100, WIDTH);
    assert_eq!(first, ReleaseOutcome::DeferClick { x: expected, y: expected });
    state.on_left_press(1150);
    let second = state.on_left_release(1200, &no_polygons());
    assert_eq!(second, ReleaseOutcome::DoubleClick { x: expected, y: expected });
    // The double click sets the flag the deferred check consumes, so the
    // tentative first click is never emitted.
    assert!(deferred_click(true, expected, expected).is_none());
}

#[test]
fn long_moved_release_is_a_drag() {
    // Press at (0, 0), release at (50, 50) after 300 ms: a drag from
    // (0, 0) to (50, 50), no click events.
    let mut reg = ready();
    let mut state = GrabState::new(0, WIDTH);
    state.on_mouse_move(&mut reg, 0, 0);
    state.on_left_press(1000);
    state.on_mouse_move(&mut reg, 50, 50);
    let outcome = state.on_left_release(1300, &no_polygons());
    match outcome {
        ReleaseOutcome::Drag { from, to } => {
            assert_eq!(from.x, Frac::new(0, WIDTH));
            assert_eq!(from.y, Frac::new(0, WIDTH));
            assert_eq!(to.x, Frac::new(50, WIDTH));
            assert_eq!(to.y, Frac::new(50, WIDTH));
        }
        other => panic!("expected Drag, got {:?}", other),
    }
}

#[test]
fn long_release_without_movement_is_nothing() {
    let mut reg = ready();
    let mut state = GrabState::new(0, WIDTH);
    state.on_mouse_move(&mut reg, 40, 40);
    state.on_left_press(1000);
    let outcome = state.on_left_release(1400, &no_polygons());
    assert_eq!(outcome, ReleaseOutcome::Nothing);
}

#[test]
fn release_inside_a_region_emits_nothing() {
    let mut reg = ready();
    let mut state = GrabState::new(0, WIDTH);
    state.on_mouse_move(&mut reg, 100, 100);
    state.on_left_press(1000);
    let inside = vec![String::from("zone")];
    let outcome = state.on_left_release(1050, &inside);
    assert_eq!(outcome, ReleaseOutcome::Nothing);
}

#[test]
fn right_release_outside_emits_right_click() {
    let mut reg = ready();
    let mut state = GrabState::new(0, WIDTH);
    state.on_mouse_move(&mut reg, 200, 300);
    match state.on_right_release(&no_polygons()) {
        Some(Event::RightClick { x, y }) => {
            assert_eq!(x, Frac::new(200, WIDTH));
            assert_eq!(y, Frac::new(300, WIDTH));
        }
        other => panic!("expected RightClick, got {:?}", other),
    }
    assert!(state.on_right_release(&vec![String::from("zone")]).is_none());
}

#[test]
fn wheel_events_pass_through_unconditionally() {
    match classify_wheel(3, -2) {
        Event::Wheel { x, y } => {
            assert_eq!(x, 3);
            assert_eq!(y, -2);
        }
        other => panic!("expected Wheel, got {:?}", other),
    }
}

#[test]
fn mouse_move_emits_enter_and_leave_at_boundaries() {
    let mut reg = ready();
    let id = String::from("zone");
    assert!(reg.register(&id).is_ok());
    assert!(reg.update(&id, &square(100)).is_ok());
    assert!(reg.show(&id).is_ok());
    let mut state = GrabState::new(0, WIDTH);

    // Moving inside the polygon: the window accepts pointer input and
    // MouseEnter names the containing polygon.
    let actions = state.on_mouse_move(&mut reg, 50, 50);
    assert_eq!(actions.set_ignore_cursor_events, Some(false));
    match actions.boundary {
        Some(Event::MouseEnter(ids)) => assert_eq!(ids, vec![String::from("zone")]),
        other => panic!("expected MouseEnter, got {:?}", other),
    }
    match actions.movement {
        Event::MouseMove { x, y } => {
            assert_eq!(x, Frac::new(50, WIDTH));
            assert_eq!(y, Frac::new(50, WIDTH));
        }
        other => panic!("expected MouseMove, got {:?}", other),
    }

    // Moving within the polygon: no boundary event, only MouseMove.
    let actions = state.on_mouse_move(&mut reg, 60, 60);
    assert_eq!(actions.set_ignore_cursor_events, None);
    assert!(actions.boundary.is_none());

    // Moving out: the window ignores pointer input again and MouseLeave
    // is emitted.
    let actions = state.on_mouse_move(&mut reg, 500, 500);
    assert_eq!(actions.set_ignore_cursor_events, Some(true));
    assert!(matches!(actions.boundary, Some(Event::MouseLeave)));

    // Staying outside: no boundary event.
    let actions = state.on_mouse_move(&mut reg, 600, 600);
    assert_eq!(actions.set_ignore_cursor_events, None);
    assert!(actions.boundary.is_none());
}

#[test]
fn mouse_position_is_clamped_to_viewport() {
    let mut reg = ready();
    let mut state = GrabState::new(0, WIDTH);
    let actions = state.on_mouse_move(&mut reg, -40, 2500);
    match actions.movement {
        Event::MouseMove { x, y } => {
            assert_eq!(x, Frac::new(0, WIDTH));
            assert_eq!(y, Frac::new(WIDTH, WIDTH));
        }
        other => panic!("expected MouseMove, got {:?}", other),
    }
}

#[test]
fn topics_name_each_gesture_kind() {
    let origin = Frac::new(0, WIDTH);
    assert_eq!(Event::LeftClick { x: origin, y: origin }.topic(), "POLYGON_LEFT_CLICK");
    assert_eq!(Event::DoubleClick { x: origin, y: origin }.topic(), "POLYGON_DOUBLE_CLICK");
    assert_eq!(Event::RightClick { x: origin, y: origin }.topic(), "POLYGON_RIGHT_CLICK");
    assert_eq!(Event::MouseMove { x: origin, y: origin }.topic(), "POLYGON_MOUSE_MOVE");
    assert_eq!(Event::MouseEnter(Vec::new()).topic(), "POLYGON_MOUSE_ENTER");
    assert_eq!(Event::MouseLeave.topic(), "POLYGON_MOUSE_LEAVE");
    assert_eq!(Event::Wheel { x: 0, y: 0 }.topic(), "POLYGON_WHEEL");
    assert_eq!(
        Event::Error(polygon::error::Error::NotInitialized).topic(),
        "POLYGON_ERROR"
    );
    let p = polygon::grab::Position { x: origin, y: origin };
    assert_eq!(Event::Drag { from: p, to: p }.topic(), "POLYGON_DRAG");
}

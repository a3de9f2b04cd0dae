use umod::router::{
    rs_cursor, rs_do_capture, rs_get_state, rs_key_enter, rs_key_escape, rs_mousedown, rs_mouseup,
    rs_set_window_size, OverlayAction,
};
use umod::selection::{
    Bounds, CaptureError, ElementState, MouseButton, Offset, RegionSelectionState, SelectionPhase,
    WindowSize,
};

fn session(width: u32, height: u32) -> RegionSelectionState {
    let mut s = RegionSelectionState::default();
    s.window_size = WindowSize::new(width, height);
    s
}

fn drag(s: &mut RegionSelectionState, from: (i32, i32), to: (i32, i32)) {
    s.update_cursor(from.0, from.1);
    s.handle_mouse(MouseButton::Left, ElementState::Pressed);
    s.update_cursor(to.0, to.1);
    s.handle_mouse(MouseButton::Left, ElementState::Released);
}

#[test]
fn default_state_is_idle() {
    let s = RegionSelectionState::default();
    assert_eq!(s.phase, SelectionPhase::Idle);
    assert_eq!(s.start, None);
    assert_eq!(s.end, None);
    assert_eq!(s.cursor_pos, (0, 0));
    assert_eq!(s.window_size, WindowSize::new(1, 1));
    assert!(!s.capture_debounce);
    assert_eq!(s.selection_bounds(), None);
}

#[test]
fn idle_press_starts_drawing() {
    let mut s = session(200, 200);
    s.update_cursor(30, 40);
    s.handle_mouse(MouseButton::Left, ElementState::Pressed);
    assert_eq!(s.phase, SelectionPhase::Drawing);
    assert_eq!(s.start, Some((30, 40)));
    assert_eq!(s.end, Some((30, 40)));
}

#[test]
fn idle_ignores_other_events() {
    let mut s = session(200, 200);
    s.handle_mouse(MouseButton::Left, ElementState::Released);
    assert_eq!(s.phase, SelectionPhase::Idle);
    s.handle_mouse(MouseButton::Right, ElementState::Pressed);
    assert_eq!(s.phase, SelectionPhase::Idle);
    s.handle_mouse(MouseButton::Middle, ElementState::Pressed);
    assert_eq!(s.phase, SelectionPhase::Idle);
    s.update_cursor(50, 60);
    assert_eq!(s.phase, SelectionPhase::Idle);
    assert_eq!(s.start, None);
    assert_eq!(s.end, None);
    assert_eq!(s.cursor_pos, (50, 60));
    assert_eq!(rs_key_enter(&mut s), OverlayAction::Ignore);
    assert_eq!(s.phase, SelectionPhase::Idle);
}

#[test]
fn cursor_is_clamped_to_non_negative() {
    let mut s = session(200, 200);
    s.update_cursor(-5, 7);
    assert_eq!(s.cursor_pos, (0, 7));
    s.update_cursor(9, -1);
    assert_eq!(s.cursor_pos, (9, 0));
}

#[test]
fn small_drag_returns_to_idle() {
    let mut s = session(200, 200);
    drag(&mut s, (10, 10), (20, 20));
    assert_eq!(s.phase, SelectionPhase::Idle);
    assert_eq!(s.start, None);
    assert_eq!(s.end, None);
}

#[test]
fn narrow_drag_returns_to_idle() {
    let mut s = session(200, 200);
    drag(&mut s, (0, 0), (24, 100));
    assert_eq!(s.phase, SelectionPhase::Idle);
    assert_eq!(s.selection_bounds(), None);
}

#[test]
fn drag_of_exact_minimum_confirms() {
    let mut s = session(200, 200);
    drag(&mut s, (10, 10), (35, 35));
    assert_eq!(s.phase, SelectionPhase::Confirmed);
    assert_eq!(s.selection_bounds(), Some((10, 10, 25, 25)));
}

#[test]
fn confirm_threshold() {
    let mut s = session(200, 200);
    drag(&mut s, (0, 0), (100, 50));
    assert_eq!(s.phase, SelectionPhase::Confirmed);
    assert_eq!(s.selection_bounds(), Some((0, 0, 100, 50)));
}

#[test]
fn reversed_drag_gives_normalised_bounds() {
    let mut s = session(300, 300);
    drag(&mut s, (150, 120), (40, 20));
    assert_eq!(s.phase, SelectionPhase::Confirmed);
    assert_eq!(s.selection_bounds(), Some((40, 20, 110, 100)));
}

#[test]
fn move_clamps_to_origin() {
    let mut s = session(200, 200);
    drag(&mut s, (100, 100), (150, 150));
    assert_eq!(s.selection_bounds(), Some((100, 100, 50, 50)));
    s.update_cursor(120, 120);
    s.handle_mouse(MouseButton::Left, ElementState::Pressed);
    assert_eq!(s.phase, SelectionPhase::Moving { offset: Offset { x: 20, y: 20 } });
    s.update_cursor(-500, -500);
    assert_eq!(s.selection_bounds(), Some((0, 0, 50, 50)));
    assert_eq!(s.start, Some((0, 0)));
    s.handle_mouse(MouseButton::Left, ElementState::Released);
    assert_eq!(s.phase, SelectionPhase::Confirmed);
    assert_eq!(s.selection_bounds(), Some((0, 0, 50, 50)));
}

#[test]
fn move_clamps_to_far_edges() {
    let mut s = session(200, 200);
    drag(&mut s, (100, 100), (150, 150));
    s.update_cursor(100, 100);
    s.handle_mouse(MouseButton::Left, ElementState::Pressed);
    s.update_cursor(1000, 190);
    assert_eq!(s.selection_bounds(), Some((150, 150, 50, 50)));
}

#[test]
fn move_follows_cursor_inside_window() {
    let mut s = session(200, 200);
    drag(&mut s, (100, 100), (150, 150));
    s.update_cursor(110, 130);
    s.handle_mouse(MouseButton::Left, ElementState::Pressed);
    s.update_cursor(60, 70);
    assert_eq!(s.selection_bounds(), Some((50, 40, 50, 50)));
}

#[test]
fn press_outside_confirmed_rect_is_ignored() {
    let mut s = session(200, 200);
    drag(&mut s, (100, 100), (150, 150));
    s.update_cursor(10, 10);
    s.handle_mouse(MouseButton::Left, ElementState::Pressed);
    assert_eq!(s.phase, SelectionPhase::Confirmed);
    assert_eq!(s.selection_bounds(), Some((100, 100, 50, 50)));
}

#[test]
fn hit_test_edges_are_inclusive() {
    let mut s = session(200, 200);
    assert!(!s.hit_test(0, 0));
    drag(&mut s, (10, 20), (60, 90));
    assert_eq!(s.selection_bounds(), Some((10, 20, 50, 70)));
    assert!(s.hit_test(10, 20));
    assert!(s.hit_test(60, 90));
    assert!(s.hit_test(10, 90));
    assert!(s.hit_test(60, 20));
    assert!(s.hit_test(35, 20));
    assert!(!s.hit_test(9, 50));
    assert!(!s.hit_test(61, 50));
    assert!(!s.hit_test(35, 19));
    assert!(!s.hit_test(35, 91));
}

#[test]
fn reset_keeps_cursor_and_window() {
    let mut s = session(200, 150);
    drag(&mut s, (0, 0), (100, 50));
    s.reset();
    assert_eq!(s.phase, SelectionPhase::Idle);
    assert_eq!(s.selection_bounds(), None);
    assert_eq!(s.cursor_pos, (100, 50));
    assert_eq!(s.window_size, WindowSize::new(200, 150));
}

#[test]
fn capture_round_trip_success() {
    let mut s = session(200, 200);
    drag(&mut s, (0, 0), (100, 50));
    let before = s.selection_bounds().unwrap();
    assert_eq!(rs_key_enter(&mut s), OverlayAction::BeginCapture);
    assert_eq!(s.phase, SelectionPhase::Capturing);
    let b = s.capture().unwrap();
    assert_eq!((b.x, b.y, b.w, b.h), before);
    assert_eq!(rs_do_capture(&mut s), Ok((0, 0, 100, 50)));
    let done = s.finish_capture(Ok("region_capture.png".to_string()));
    assert_eq!(done, Ok("region_capture.png".to_string()));
    assert_eq!(s.phase, SelectionPhase::Idle);
    assert!(!s.capture_debounce);
    assert_eq!(s.selection_bounds(), None);
}

#[test]
fn capture_round_trip_failure() {
    let mut s = session(200, 200);
    drag(&mut s, (10, 10), (110, 60));
    assert_eq!(s.capture(), Ok(Bounds { x: 10, y: 10, w: 100, h: 50 }));
    rs_key_enter(&mut s);
    let done = s.finish_capture(Err("no display".to_string()));
    assert_eq!(done, Err(CaptureError::CaptureFailed("no display".to_string())));
    assert_eq!(s.phase, SelectionPhase::Idle);
    assert!(!s.capture_debounce);
}

#[test]
fn capture_without_selection_fails() {
    let mut s = session(200, 200);
    assert_eq!(s.capture(), Err(CaptureError::NoSelection));
    s.capture_debounce = true;
    assert_eq!(rs_do_capture(&mut s), Err(CaptureError::NoSelection));
    assert_eq!(s.phase, SelectionPhase::Idle);
    assert!(!s.capture_debounce);
}

#[test]
fn oversized_region_is_invalid_geometry() {
    let b = Bounds { x: 3_000_000_000, y: 0, w: 10, h: 10 };
    assert_eq!(b.to_region(), Err(CaptureError::InvalidGeometry));
    let ok = Bounds { x: 5, y: 6, w: 7, h: 8 };
    assert_eq!(ok.to_region(), Ok((5, 6, 7, 8)));
}

#[test]
fn enter_is_debounced() {
    let mut s = session(200, 200);
    drag(&mut s, (0, 0), (100, 50));
    assert_eq!(rs_key_enter(&mut s), OverlayAction::BeginCapture);
    assert!(s.capture_debounce);
    assert_eq!(rs_key_enter(&mut s), OverlayAction::Ignore);
    assert_eq!(s.phase, SelectionPhase::Capturing);
}

#[test]
fn enter_needs_confirmed_phase() {
    let mut s = session(200, 200);
    s.update_cursor(5, 5);
    s.handle_mouse(MouseButton::Left, ElementState::Pressed);
    assert_eq!(rs_key_enter(&mut s), OverlayAction::Ignore);
    assert_eq!(s.phase, SelectionPhase::Drawing);
}

#[test]
fn escape_closes_from_idle_and_resets_otherwise() {
    let mut s = session(200, 200);
    assert_eq!(rs_key_escape(&mut s), OverlayAction::Close);
    drag(&mut s, (0, 0), (100, 50));
    assert_eq!(rs_key_escape(&mut s), OverlayAction::Redraw);
    assert_eq!(s.phase, SelectionPhase::Idle);
    assert_eq!(s.selection_bounds(), None);
}

#[test]
fn command_surface_routes_primary_button_only() {
    let mut s = RegionSelectionState::default();
    rs_set_window_size(&mut s, 300, 200);
    assert_eq!(s.window_size, WindowSize::new(300, 200));
    assert_eq!(rs_cursor(&mut s, 10, 10), OverlayAction::Redraw);
    assert_eq!(rs_mousedown(&mut s, MouseButton::Right), OverlayAction::Ignore);
    assert_eq!(s.phase, SelectionPhase::Idle);
    assert_eq!(rs_mousedown(&mut s, MouseButton::Left), OverlayAction::Redraw);
    assert_eq!(s.phase, SelectionPhase::Drawing);
    rs_cursor(&mut s, 80, 90);
    assert_eq!(rs_mouseup(&mut s, MouseButton::Left), OverlayAction::Redraw);
    assert_eq!(s.phase, SelectionPhase::Confirmed);
}

#[test]
fn state_snapshot_names_phase() {
    let mut s = session(200, 200);
    let idle = rs_get_state(&s);
    assert_eq!(idle.phase, "Idle");
    assert_eq!(idle.bounds, None);
    s.update_cursor(5, 5);
    s.handle_mouse(MouseButton::Left, ElementState::Pressed);
    assert_eq!(rs_get_state(&s).phase, "Drawing");
    s.update_cursor(105, 55);
    s.handle_mouse(MouseButton::Left, ElementState::Released);
    let confirmed = rs_get_state(&s);
    assert_eq!(confirmed.phase, "Confirmed");
    assert_eq!(confirmed.bounds, Some(Bounds { x: 5, y: 5, w: 100, h: 50 }));
    s.update_cursor(50, 30);
    s.handle_mouse(MouseButton::Left, ElementState::Pressed);
    assert_eq!(rs_get_state(&s).phase, "Moving");
    s.handle_mouse(MouseButton::Left, ElementState::Released);
    rs_key_enter(&mut s);
    assert_eq!(rs_get_state(&s).phase, "Capturing");
}

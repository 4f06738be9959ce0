use coolapk::window::{
    parse_saved_window_state, restore_window_rect, ScreenRect, WindowState, MIN_WINDOW_H,
    MIN_WINDOW_W,
};

#[test]
fn parses_valid_window_geometry() {
    assert_eq!(
        parse_saved_window_state(Some(-120), Some(45), Some(1200), Some(700)),
        Some(WindowState { x: -120, y: 45, w: 1200, h: 700 })
    );
}

#[test]
fn rejects_invalid_or_too_small_window_geometry() {
    assert!(parse_saved_window_state(Some(0), Some(0), Some((MIN_WINDOW_W - 1) as u64), Some(MIN_WINDOW_H as u64)).is_none());
    assert!(parse_saved_window_state(None, Some(0), Some(MIN_WINDOW_W as u64), Some(MIN_WINDOW_H as u64)).is_none());
}

#[test]
fn preserves_visible_window_geometry() {
    let screen = ScreenRect { x: 0, y: 0, w: 1920, h: 1080 };
    let saved = WindowState { x: 120, y: 80, w: 1200, h: 700 };
    assert_eq!(restore_window_rect(saved, &[screen], Some(screen)), saved);
}

#[test]
fn recenters_window_that_is_completely_off_screen() {
    let screen = ScreenRect { x: 0, y: 0, w: 1920, h: 1080 };
    let saved = WindowState { x: 3000, y: 200, w: 1200, h: 700 };
    assert_eq!(
        restore_window_rect(saved, &[screen], Some(screen)),
        WindowState { x: 360, y: 190, w: 1200, h: 700 }
    );
}

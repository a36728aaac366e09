use sukusho::drag_drop::Point;
use sukusho::tray::{
    centered_origin, menu_choice, notification_origin, MenuChoice, Rect, Size, Toggled, TrayAction,
    TrayEvent, TrayGesture, WindowCommand, WindowState,
};

fn rect(left: i32, top: i32, right: i32, bottom: i32) -> Rect {
    Rect { left, top, right, bottom }
}

#[test]
fn window_is_centred_in_the_work_area() {
    let area = rect(0, 0, 1920, 1040);
    let window = rect(100, 100, 900, 700);
    assert_eq!(centered_origin(area, window), Some(Point { x: 560, y: 220 }));
}

#[test]
fn centring_on_a_second_monitor() {
    let area = rect(-1280, 24, 0, 1024);
    let window = rect(0, 0, 801, 601);
    assert_eq!(centered_origin(area, window), Some(Point { x: -1041, y: 223 }));
}

#[test]
fn a_window_larger_than_the_area_sticks_out_evenly() {
    let area = rect(0, 0, 100, 100);
    let window = rect(0, 0, 201, 103);
    assert_eq!(centered_origin(area, window), Some(Point { x: 0 + (100 - 201) / 2, y: 0 + (100 - 103) / 2 }));
    assert_eq!(centered_origin(area, window), Some(Point { x: -50, y: -1 }));
}

#[test]
fn a_position_without_coordinates_is_none() {
    let area = rect(i32::MAX - 1, 0, i32::MAX, 10);
    let window = rect(i32::MAX, 0, i32::MIN, 10);
    assert_eq!(centered_origin(area, window), None);
    let screen = Size { width: i32::MIN, height: 0 };
    assert_eq!(notification_origin(screen, rect(0, 0, 0, 0), Size { width: 1, height: 1 }, 0), None);
}

#[test]
fn notification_sits_above_the_task_bar() {
    let screen = Size { width: 1920, height: 1080 };
    let taskbar = rect(0, 1040, 1920, 1080);
    let size = Size { width: 400, height: 140 };
    assert_eq!(notification_origin(screen, taskbar, size, 15), Some(Point { x: 1505, y: 885 }));
}

#[test]
fn notification_sits_in_the_corner_without_a_task_bar() {
    let screen = Size { width: 1920, height: 1080 };
    let size = Size { width: 400, height: 140 };
    assert_eq!(notification_origin(screen, rect(0, 0, 0, 0), size, 15), Some(Point { x: 1505, y: 925 }));
    assert_eq!(notification_origin(screen, rect(0, 500, 10, 500), size, 15), Some(Point { x: 1505, y: 925 }));
}

#[test]
fn window_starts_visible_without_handle() {
    let state = WindowState::new();
    assert_eq!(state, WindowState { handle: None, visible: true });
    assert!(state.is_window_visible());
    assert!(!state.is_window_focused(Some(0)));
    assert!(!state.is_window_focused(None));
}

#[test]
fn nothing_happens_without_a_handle() {
    let mut state = WindowState::new();
    assert_eq!(state.hide_window(), None);
    assert!(state.is_window_visible());
    assert_eq!(state.show_window(), None);
    assert_eq!(state.toggle_window(Some(5)), Toggled { shown: true, command: None });
    assert_eq!(state, WindowState::new());
}

#[test]
fn hide_and_show_follow_the_handle() {
    let mut state = WindowState::new();
    state.set_window_hwnd(42);
    assert!(state.is_window_focused(Some(42)));
    assert!(!state.is_window_focused(Some(43)));
    assert!(!state.is_window_focused(None));
    assert_eq!(state.hide_window(), Some(WindowCommand::Hide(42)));
    assert!(!state.is_window_visible());
    assert_eq!(state.show_window(), Some(WindowCommand::Show(42)));
    assert!(state.is_window_visible());
}

#[test]
fn toggle_hides_a_focused_visible_window() {
    let mut state = WindowState::new();
    state.set_window_hwnd(42);
    assert_eq!(state.toggle_window(Some(42)), Toggled { shown: false, command: Some(WindowCommand::Hide(42)) });
    assert!(!state.is_window_visible());
    assert_eq!(state.toggle_window(Some(42)), Toggled { shown: true, command: Some(WindowCommand::Show(42)) });
    assert!(state.is_window_visible());
}

#[test]
fn toggle_shows_a_window_that_is_not_focused() {
    let mut state = WindowState::new();
    state.set_window_hwnd(42);
    assert_eq!(state.toggle_window(Some(7)), Toggled { shown: true, command: Some(WindowCommand::Show(42)) });
    assert!(state.is_window_visible());
}

#[test]
fn toggle_shows_when_the_foreground_is_unknown() {
    let mut state = WindowState::new();
    state.set_window_hwnd(42);
    assert_eq!(state.toggle_window(None), Toggled { shown: true, command: Some(WindowCommand::Show(42)) });
}

#[test]
fn a_click_toggles_the_window() {
    let mut gesture = TrayGesture::new();
    assert_eq!(gesture.on_event(TrayEvent::LeftDown), TrayAction::RememberPosition);
    assert!(gesture.pressed);
    assert_eq!(gesture.on_event(TrayEvent::Move { beyond_threshold: false }), TrayAction::Nothing);
    assert!(gesture.pressed);
    assert_eq!(gesture.on_event(TrayEvent::LeftUp), TrayAction::ToggleWindow);
    assert!(!gesture.pressed);
}

#[test]
fn a_release_without_a_press_does_nothing() {
    let mut gesture = TrayGesture::new();
    assert_eq!(gesture.on_event(TrayEvent::LeftUp), TrayAction::Nothing);
    assert_eq!(gesture.on_event(TrayEvent::Move { beyond_threshold: true }), TrayAction::Nothing);
    assert_eq!(gesture.on_event(TrayEvent::Leave), TrayAction::Nothing);
    assert_eq!(gesture.on_event(TrayEvent::Other), TrayAction::Nothing);
    assert!(!gesture.pressed);
}

#[test]
fn a_press_that_moves_far_becomes_a_drag() {
    let mut gesture = TrayGesture::new();
    gesture.on_event(TrayEvent::LeftDown);
    assert_eq!(gesture.on_event(TrayEvent::Move { beyond_threshold: true }), TrayAction::StartDrag);
    assert!(!gesture.pressed);
    assert_eq!(gesture.on_event(TrayEvent::LeftUp), TrayAction::Nothing);
}

#[test]
fn a_press_that_leaves_the_icon_becomes_a_drag() {
    let mut gesture = TrayGesture::new();
    gesture.on_event(TrayEvent::LeftDown);
    assert_eq!(gesture.on_event(TrayEvent::Leave), TrayAction::StartDrag);
    assert!(!gesture.pressed);
}

#[test]
fn a_double_click_shows_the_window() {
    let mut gesture = TrayGesture::new();
    gesture.on_event(TrayEvent::LeftDown);
    assert_eq!(gesture.on_event(TrayEvent::DoubleClick), TrayAction::ShowWindow);
    assert!(!gesture.pressed);
    assert_eq!(gesture.on_event(TrayEvent::DoubleClick), TrayAction::ShowWindow);
}

#[test]
fn other_events_keep_the_press() {
    let mut gesture = TrayGesture::new();
    gesture.on_event(TrayEvent::LeftDown);
    assert_eq!(gesture.on_event(TrayEvent::Other), TrayAction::Nothing);
    assert!(gesture.pressed);
}

#[test]
fn menu_events_are_told_apart_by_identifier() {
    assert_eq!(menu_choice("1", "1", "2", "3"), Some(MenuChoice::Settings));
    assert_eq!(menu_choice("2", "1", "2", "3"), Some(MenuChoice::CheckForUpdates));
    assert_eq!(menu_choice("3", "1", "2", "3"), Some(MenuChoice::Quit));
    assert_eq!(menu_choice("4", "1", "2", "3"), None);
    assert_eq!(menu_choice("", "1", "2", "3"), None);
    assert_eq!(menu_choice("1", "1", "1", "1"), Some(MenuChoice::Settings));
    assert_eq!(menu_choice("2", "1", "2", "2"), Some(MenuChoice::CheckForUpdates));
}

//! The tray icon and the window behind it: what a click, a drag or a menu
//! choice calls for, and where a window goes on the screen.
//!
//! The caller owns the icon, the menu and the window. It reports what the
//! user did and carries out what is decided here.

use vstd::prelude::*;
use crate::drag_drop::Point;
use crate::text::same_text;

verus! {

/// A rectangle on the screen, by its edges.
#[derive(Debug, Clone, Copy, PartialEq, Eq, Structural)]
pub struct Rect {
    pub left: i32,
    pub top: i32,
    pub right: i32,
    pub bottom: i32,
}

/// A width and a height.
#[derive(Debug, Clone, Copy, PartialEq, Eq, Structural)]
pub struct Size {
    pub width: i32,
    pub height: i32,
}

/// What is to be done with the window.
#[derive(Debug, Clone, Copy, PartialEq, Eq, Structural)]
pub enum WindowCommand {
    /// Hide the window with this handle.
    Hide(isize),
    /// Put the window with this handle on the monitor of the pointer, show
    /// it and bring it to the front.
    Show(isize),
}

/// What is known of the application's window.
#[derive(Debug, Clone, Copy, PartialEq, Eq, Structural)]
pub struct WindowState {
    /// The handle of the window, once it is known.
    pub handle: Option<isize>,
    /// Whether the window is shown.
    pub visible: bool,
}

/// What a toggle did.
#[derive(Debug, Clone, Copy, PartialEq, Eq, Structural)]
pub struct Toggled {
    /// Whether the window was to be shown (`true`) or hidden.
    pub shown: bool,
    /// What is to be done with the window; `None` where it has no handle yet.
    pub command: Option<WindowCommand>,
}

/// What the user did to the tray icon.
#[derive(Debug, Clone, Copy, PartialEq, Eq, Structural)]
pub enum TrayEvent {
    /// The primary button went down on the icon.
    LeftDown,
    /// The primary button came up on the icon.
    LeftUp,
    /// The pointer moved over the icon; `beyond_threshold` tells whether it
    /// is farther from where the button went down than a click allows.
    Move { beyond_threshold: bool },
    /// The pointer left the icon.
    Leave,
    /// The primary button was double-clicked.
    DoubleClick,
    /// Anything else.
    Other,
}

/// What an event on the tray icon calls for.
#[derive(Debug, Clone, Copy, PartialEq, Eq, Structural)]
pub enum TrayAction {
    /// Nothing.
    Nothing,
    /// Remember where the button went down.
    RememberPosition,
    /// Toggle the window; if that shows it, tell the application to show its
    /// main view.
    ToggleWindow,
    /// Start a drag with the latest screenshot, if there is one.
    StartDrag,
    /// Show the window and tell the application that it was toggled.
    ShowWindow,
}

/// Whether the primary button is held on the tray icon.
#[derive(Debug, Clone, Copy, PartialEq, Eq, Structural)]
pub struct TrayGesture {
    pub pressed: bool,
}

/// A choice from the tray menu.
#[derive(Debug, Clone, Copy, PartialEq, Eq, Structural)]
pub enum MenuChoice {
    /// Open the settings.
    Settings,
    /// Check for a newer release.
    CheckForUpdates,
    /// Quit the application.
    Quit,
}

/// Half of a number, rounded towards zero.
pub open spec fn half(n: int) -> int {
    if n >= 0 {
        n / 2
    } else {
        -((-n) / 2)
    }
}

/// Whether a number can be a coordinate.
pub open spec fn is_coordinate(n: int) -> bool {
    i32::MIN <= n <= i32::MAX
}

/// The horizontal position at which a window is centred in an area.
pub open spec fn centred_x(area: Rect, window: Rect) -> int {
    area.left + half((area.right - area.left) - (window.right - window.left))
}

/// The vertical position at which a window is centred in an area.
pub open spec fn centred_y(area: Rect, window: Rect) -> int {
    area.top + half((area.bottom - area.top) - (window.bottom - window.top))
}

/// The horizontal position of a notification on a screen: its right edge
/// one margin from the right edge of the screen.
pub open spec fn notice_x(screen: Size, size: Size, margin: i32) -> int {
    screen.width - size.width - margin
}

/// The vertical position of a notification: its lower edge one margin above
/// the task bar, or above the lower edge of the screen where the task bar has
/// no height.
pub open spec fn notice_y(screen: Size, taskbar: Rect, size: Size, margin: i32) -> int {
    if taskbar.bottom > taskbar.top {
        taskbar.top - size.height - margin
    } else {
        screen.height - size.height - margin
    }
}

/// The state after an event on the tray icon, and what the event calls for.
///
/// A press is remembered. A release after a press toggles the window. A
/// press that moves too far, or leaves the icon, becomes a drag. A double
/// click shows the window. The press is forgotten by whatever ends it.
pub open spec fn gesture_step(gesture: TrayGesture, event: TrayEvent) -> (TrayGesture, TrayAction) {
    match event {
        TrayEvent::LeftDown => (TrayGesture { pressed: true }, TrayAction::RememberPosition),
        TrayEvent::LeftUp => if gesture.pressed {
            (TrayGesture { pressed: false }, TrayAction::ToggleWindow)
        } else {
            (gesture, TrayAction::Nothing)
        },
        TrayEvent::Move { beyond_threshold } => if gesture.pressed && beyond_threshold {
            (TrayGesture { pressed: false }, TrayAction::StartDrag)
        } else {
            (gesture, TrayAction::Nothing)
        },
        TrayEvent::Leave => if gesture.pressed {
            (TrayGesture { pressed: false }, TrayAction::StartDrag)
        } else {
            (gesture, TrayAction::Nothing)
        },
        TrayEvent::DoubleClick => (TrayGesture { pressed: false }, TrayAction::ShowWindow),
        TrayEvent::Other => (gesture, TrayAction::Nothing),
    }
}

/// The choice that a menu event stands for, by the identifier of the event
/// and those of the three menu items.
pub open spec fn choice_for(
    event: Seq<char>,
    settings: Seq<char>,
    updates: Seq<char>,
    quit: Seq<char>,
) -> Option<MenuChoice> {
    if event == settings {
        Some(MenuChoice::Settings)
    } else if event == updates {
        Some(MenuChoice::CheckForUpdates)
    } else if event == quit {
        Some(MenuChoice::Quit)
    } else {
        None
    }
}

fn coordinate(n: i64) -> (c: Option<i32>)
    ensures
        match c {
            Some(value) => value == n,
            None => !is_coordinate(n as int),
        },
{
    if n < i32::MIN as i64 || n > i32::MAX as i64 {
        None
    } else {
        Some(n as i32)
    }
}

fn point(x: i64, y: i64) -> (p: Option<Point>)
    ensures
        match p {
            Some(at) => at.x == x && at.y == y,
            None => !is_coordinate(x as int) || !is_coordinate(y as int),
        },
{
    match coordinate(x) {
        Some(px) => match coordinate(y) {
            Some(py) => Some(Point { x: px, y: py }),
            None => None,
        },
        None => None,
    }
}

fn halved(n: i64) -> (h: i64)
    requires
        -0x2_0000_0000 <= n <= 0x2_0000_0000,
    ensures
        h == half(n as int),
{
    if n >= 0 {
        n / 2
    } else {
        -((-n) / 2)
    }
}

/// Where a window goes so that it stands in the middle of an area, such as
/// the work area of a monitor: the position of its upper left corner. `None`
/// where that position has no coordinates.
pub fn centered_origin(area: Rect, window: Rect) -> (origin: Option<Point>)
    ensures
        match origin {
            Some(at) => at.x == centred_x(area, window) && at.y == centred_y(area, window),
            None => !is_coordinate(centred_x(area, window)) || !is_coordinate(
                centred_y(area, window),
            ),
        },
{
    let spare_width: i64 = (area.right as i64 - area.left as i64) - (window.right as i64
        - window.left as i64);
    let spare_height: i64 = (area.bottom as i64 - area.top as i64) - (window.bottom as i64
        - window.top as i64);
    point(area.left as i64 + halved(spare_width), area.top as i64 + halved(spare_height))
}

/// Where a notification of a given size goes: into the lower right corner
/// of the screen, above the task bar. `None` where that position has no
/// coordinates.
pub fn notification_origin(screen: Size, taskbar: Rect, size: Size, margin: i32) -> (origin: Option<
    Point,
>)
    ensures
        match origin {
            Some(at) => at.x == notice_x(screen, size, margin) && at.y == notice_y(
                screen,
                taskbar,
                size,
                margin,
            ),
            None => !is_coordinate(notice_x(screen, size, margin)) || !is_coordinate(
                notice_y(screen, taskbar, size, margin),
            ),
        },
{
    let x: i64 = screen.width as i64 - size.width as i64 - margin as i64;
    let y: i64 = if taskbar.bottom > taskbar.top {
        taskbar.top as i64 - size.height as i64 - margin as i64
    } else {
        screen.height as i64 - size.height as i64 - margin as i64
    };
    point(x, y)
}

impl WindowState {
    /// The state at start-up: the window is shown and its handle is not
    /// known.
    pub fn new() -> (state: WindowState)
        ensures
            state == (WindowState { handle: None, visible: true }),
    {
        WindowState { handle: None, visible: true }
    }

    /// Takes note of the window's handle.
    pub fn set_window_hwnd(&mut self, hwnd: isize)
        ensures
            *final(self) == (WindowState { handle: Some(hwnd), visible: old(self).visible }),
    {
        self.handle = Some(hwnd);
    }

    /// Whether the window is the one in the foreground, given the handle of
    /// that one, where the platform can tell it.
    pub fn is_window_focused(&self, foreground: Option<isize>) -> (focused: bool)
        ensures
            focused == (self.handle is Some && self.handle == foreground),
    {
        match self.handle {
            Some(hwnd) => match foreground {
                Some(front) => hwnd == front,
                None => false,
            },
            None => false,
        }
    }

    /// Whether the window is shown.
    pub fn is_window_visible(&self) -> (visible: bool)
        ensures
            visible == self.visible,
    {
        self.visible
    }

    /// Hides the window. Nothing happens while the window has no handle.
    pub fn hide_window(&mut self) -> (command: Option<WindowCommand>)
        ensures
            match old(self).handle {
                Some(hwnd) => command == Some(WindowCommand::Hide(hwnd)) && *final(self) == (
                WindowState { handle: Some(hwnd), visible: false }),
                None => command is None && *final(self) == *old(self),
            },
    {
        match self.handle {
            Some(hwnd) => {
                self.visible = false;
                Some(WindowCommand::Hide(hwnd))
            },
            None => None,
        }
    }

    /// Shows the window. Nothing happens while the window has no handle.
    pub fn show_window(&mut self) -> (command: Option<WindowCommand>)
        ensures
            match old(self).handle {
                Some(hwnd) => command == Some(WindowCommand::Show(hwnd)) && *final(self) == (
                WindowState { handle: Some(hwnd), visible: true }),
                None => command is None && *final(self) == *old(self),
            },
    {
        match self.handle {
            Some(hwnd) => {
                self.visible = true;
                Some(WindowCommand::Show(hwnd))
            },
            None => None,
        }
    }

    /// Hides the window if it is shown and in the foreground, and shows it
    /// otherwise.
    pub fn toggle_window(&mut self, foreground: Option<isize>) -> (toggled: Toggled)
        ensures
            toggled.shown == !({
                &&& old(self).handle is Some
                &&& old(self).handle == foreground
                &&& old(self).visible
            }),
            match old(self).handle {
                Some(hwnd) => {
                    &&& toggled.command == Some(
                        if toggled.shown {
                            WindowCommand::Show(hwnd)
                        } else {
                            WindowCommand::Hide(hwnd)
                        },
                    )
                    &&& *final(self) == (WindowState { handle: Some(hwnd), visible: toggled.shown })
                },
                None => toggled.command is None && *final(self) == *old(self),
            },
    {
        if self.is_window_focused(foreground) && self.is_window_visible() {
            Toggled { shown: false, command: self.hide_window() }
        } else {
            Toggled { shown: true, command: self.show_window() }
        }
    }
}

impl TrayGesture {
    /// No button is held.
    pub fn new() -> (gesture: TrayGesture)
        ensures
            !gesture.pressed,
    {
        TrayGesture { pressed: false }
    }

    /// Takes note of an event on the tray icon and tells what it calls for.
    pub fn on_event(&mut self, event: TrayEvent) -> (action: TrayAction)
        ensures
            (*final(self), action) == gesture_step(*old(self), event),
    {
        match event {
            TrayEvent::LeftDown => {
                self.pressed = true;
                TrayAction::RememberPosition
            },
            TrayEvent::LeftUp => {
                if self.pressed {
                    self.pressed = false;
                    TrayAction::ToggleWindow
                } else {
                    TrayAction::Nothing
                }
            },
            TrayEvent::Move { beyond_threshold } => {
                if self.pressed && beyond_threshold {
                    self.pressed = false;
                    TrayAction::StartDrag
                } else {
                    TrayAction::Nothing
                }
            },
            TrayEvent::Leave => {
                if self.pressed {
                    self.pressed = false;
                    TrayAction::StartDrag
                } else {
                    TrayAction::Nothing
                }
            },
            TrayEvent::DoubleClick => {
                self.pressed = false;
                TrayAction::ShowWindow
            },
            TrayEvent::Other => TrayAction::Nothing,
        }
    }
}

/// The choice that a menu event stands for.
pub fn menu_choice(event: &str, settings: &str, updates: &str, quit: &str) -> (choice: Option<
    MenuChoice,
>)
    ensures
        choice == choice_for(event@, settings@, updates@, quit@),
{
    if same_text(event, settings) {
        Some(MenuChoice::Settings)
    } else if same_text(event, updates) {
        Some(MenuChoice::CheckForUpdates)
    } else if same_text(event, quit) {
        Some(MenuChoice::Quit)
    } else {
        None
    }
}

} // verus!

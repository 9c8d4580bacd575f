use kowinwm::action::{execute, next_layout_index, Action, ActionEffect, Direction};
use kowinwm::geometry::{Point, Rect};
use kowinwm::workspaces::{Window, WindowMode, Workspaces};

fn output() -> Rect {
    Rect::new(0, 0, 2560, 1440)
}

fn setup() -> (Workspaces, Point) {
    let mut ws = Workspaces::new(4);
    ws.insert_window(Window::new(1, Rect::new(0, 0, 10, 10), WindowMode::Tiled));
    ws.insert_window(Window::new(2, Rect::new(0, 0, 10, 10), WindowMode::Tiled));
    ws.workspaces[0].refresh_layout(output(), 4);
    (ws, Point::new(10, 10))
}

#[test]
fn plain_effects_pass_through() {
    let (mut ws, mut loc) = setup();
    let r = execute(&Action::Exit, &mut ws, &mut loc, output(), 4);
    assert!(matches!(r, ActionEffect::Exit));
    let r = execute(&Action::VTSwitch(3), &mut ws, &mut loc, output(), 4);
    assert!(matches!(r, ActionEffect::SwitchVt { vt: 3 }));
    let r = execute(
        &Action::Exec { command: "kitty".to_string() },
        &mut ws,
        &mut loc,
        output(),
        4,
    );
    assert!(matches!(r, ActionEffect::Spawn { command } if command == "kitty"));
    let r = execute(&Action::ReloadConfig, &mut ws, &mut loc, output(), 4);
    assert!(matches!(r, ActionEffect::ReloadConfig));
    let r = execute(&Action::SwitchLayout, &mut ws, &mut loc, output(), 4);
    assert!(matches!(r, ActionEffect::SwitchLayout));
    let r = execute(&Action::ResizeWindowMouse, &mut ws, &mut loc, output(), 4);
    assert!(matches!(r, ActionEffect::NoEffect));
}

#[test]
fn kill_active_names_the_active_window() {
    let (mut ws, mut loc) = setup();
    let r = execute(&Action::KillActive, &mut ws, &mut loc, output(), 4);
    assert!(matches!(r, ActionEffect::CloseWindow { window: 2 }));
    ws.set_active_window(None);
    let r = execute(&Action::KillActive, &mut ws, &mut loc, output(), 4);
    assert!(matches!(r, ActionEffect::NoEffect));
}

#[test]
fn workspace_command_is_one_based() {
    let (mut ws, mut loc) = setup();
    execute(&Action::Workspace { index: 3 }, &mut ws, &mut loc, output(), 4);
    assert_eq!(ws.active_ws(), 2);
    // Out of range: ignored.
    execute(&Action::Workspace { index: 9 }, &mut ws, &mut loc, output(), 4);
    assert_eq!(ws.active_ws(), 2);
}

#[test]
fn move_to_workspace_command_moves_the_active_window() {
    let (mut ws, mut loc) = setup();
    execute(&Action::MoveToWorkspace { index: 2 }, &mut ws, &mut loc, output(), 4);
    assert_eq!(ws.active_ws(), 1);
    assert_eq!(ws.get_active_window(), Some(2));
    assert_eq!(ws.workspaces[0].windows.len(), 1);
    assert_eq!(ws.workspaces[1].windows.len(), 1);
}

#[test]
fn fullscreen_command_toggles() {
    let (mut ws, mut loc) = setup();
    let before = ws.workspaces[0].windows[1].rect;
    execute(&Action::Fullscreen, &mut ws, &mut loc, output(), 4);
    assert_eq!(ws.workspaces[0].full_geo, Some(before));
    assert_eq!(ws.workspaces[0].windows[1].rect, output());
    execute(&Action::Fullscreen, &mut ws, &mut loc, output(), 4);
    assert_eq!(ws.workspaces[0].full_geo, None);
    assert_eq!(ws.workspaces[0].windows[1].rect, before);
}

#[test]
fn floating_window_command_toggles_and_centers() {
    let (mut ws, mut loc) = setup();
    execute(&Action::FloatingWindow, &mut ws, &mut loc, output(), 4);
    let w = ws.workspaces[0].windows[1];
    assert!(matches!(w.mode, WindowMode::Floating));
    // Centered in the output, size kept.
    assert_eq!(w.rect, Rect::new(644, 4, 1272, 1432));
    execute(&Action::FloatingWindow, &mut ws, &mut loc, output(), 4);
    assert!(matches!(ws.workspaces[0].windows[1].mode, WindowMode::Tiled));
}

#[test]
fn move_focus_command_moves_the_pointer_record() {
    let (mut ws, mut loc) = setup();
    ws.set_active_window(Some(1));
    execute(
        &Action::MoveFocus { direction: Direction::Right },
        &mut ws,
        &mut loc,
        output(),
        4,
    );
    // Window 2 sits in the right half after the layout pass.
    let expected = ws.workspaces[0].windows[1].rect;
    assert_eq!(loc, Point::new(
        expected.loc.x + expected.size.w / 2,
        expected.loc.y + expected.size.h / 2,
    ));
}

#[test]
fn move_window_command_swaps_positions() {
    let (mut ws, mut loc) = setup();
    ws.set_active_window(Some(1));
    execute(
        &Action::MoveWindow { direction: Direction::Right },
        &mut ws,
        &mut loc,
        output(),
        4,
    );
    let order: Vec<u64> = ws.workspaces[0].windows.iter().map(|w| w.id).collect();
    assert_eq!(order, vec![2, 1]);
}

#[test]
fn move_window_mouse_starts_a_grab_on_the_hit_window() {
    let (mut ws, mut loc) = setup();
    // The pointer sits inside window 1's half of the output.
    loc = Point::new(600, 700);
    let r = execute(&Action::MoveWindowMouse, &mut ws, &mut loc, output(), 4);
    assert!(matches!(r, ActionEffect::BeginMoveGrab { window: 1 }));
    let w = ws.workspaces[0].windows[0];
    assert!(matches!(w.mode, WindowMode::Floating));
    // The window was centered under the pointer.
    assert_eq!(w.rect.loc, Point::new(600 - w.rect.size.w / 2, 700 - w.rect.size.h / 2));
}

#[test]
fn move_window_mouse_misses_cleanly() {
    let mut ws = Workspaces::new(1);
    let mut loc = Point::new(600, 700);
    let r = execute(&Action::MoveWindowMouse, &mut ws, &mut loc, output(), 4);
    assert!(matches!(r, ActionEffect::NoEffect));
}

#[test]
fn next_layout_wraps_to_the_default() {
    assert_eq!(next_layout_index(3, 0), Some(1));
    assert_eq!(next_layout_index(3, 1), Some(2));
    assert_eq!(next_layout_index(3, 2), None);
    assert_eq!(next_layout_index(1, 0), None);
    assert_eq!(next_layout_index(0, 0), None);
}

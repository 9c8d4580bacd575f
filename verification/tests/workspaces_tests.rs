use kowinwm::action::Direction;
use kowinwm::geometry::{Point, Rect, Size};
use kowinwm::workspaces::{
    best_window, is_fullscreen, window_center, window_under, Window, WindowMode, Workspace,
    Workspaces,
};

fn tiled(id: u64, x: i32, y: i32, w: i32, h: i32) -> Window {
    Window::new(id, Rect::new(x, y, w, h), WindowMode::Tiled)
}

fn zone() -> Rect {
    Rect::new(0, 0, 2560, 1440)
}

#[test]
fn new_creates_requested_workspaces() {
    let ws = Workspaces::new(4);
    assert_eq!(ws.workspaces.len(), 4);
    assert_eq!(ws.active_ws(), 0);
    for k in 0..4 {
        assert!(ws.is_ws_empty(k));
    }
}

#[test]
fn insert_sets_active_window() {
    let mut ws = Workspaces::new(4);
    ws.insert_window(tiled(1, 0, 0, 100, 100));
    assert_eq!(ws.get_active_window(), Some(1));
    assert!(!ws.is_ws_empty(0));
    assert!(ws.is_ws_empty(1));
}

#[test]
fn remove_clears_active_pointer() {
    let mut ws = Workspaces::new(4);
    ws.insert_window(tiled(1, 0, 0, 100, 100));
    ws.insert_window(tiled(2, 0, 0, 100, 100));
    assert_eq!(ws.get_active_window(), Some(2));
    ws.remove_window(2);
    assert_eq!(ws.get_active_window(), None);
    assert_eq!(ws.get_current().windows.len(), 1);
    assert_eq!(ws.get_current().windows[0].id, 1);
}

#[test]
fn set_active_workspace_out_of_range_is_ignored() {
    let mut ws = Workspaces::new(4);
    ws.set_active_workspace(9);
    assert_eq!(ws.active_ws(), 0);
    ws.set_active_workspace(2);
    assert_eq!(ws.active_ws(), 2);
    assert_eq!(ws.prev_workspace, 0);
}

#[test]
fn move_window_to_ws_moves_exactly_once() {
    let mut ws = Workspaces::new(4);
    ws.insert_window(tiled(7, 0, 0, 100, 100));
    ws.move_window_to_ws(2);
    // The source lost the window, the target appended it, the view moved.
    assert_eq!(ws.active_ws(), 2);
    assert!(ws.is_ws_empty(0));
    assert_eq!(ws.get_current().windows.len(), 1);
    assert_eq!(ws.get_current().windows[0].id, 7);
    assert_eq!(ws.get_active_window(), Some(7));
    // The window is on exactly one workspace.
    let mut homes = 0;
    for k in 0..ws.workspaces.len() {
        if ws.workspaces[k].windows.iter().any(|w| w.id == 7) {
            homes += 1;
        }
    }
    assert_eq!(homes, 1);
}

#[test]
fn move_window_to_ws_same_or_bad_target_is_ignored() {
    let mut ws = Workspaces::new(4);
    ws.insert_window(tiled(7, 0, 0, 100, 100));
    ws.move_window_to_ws(0);
    assert_eq!(ws.active_ws(), 0);
    assert_eq!(ws.get_current().windows.len(), 1);
    ws.move_window_to_ws(17);
    assert_eq!(ws.active_ws(), 0);
    assert_eq!(ws.get_current().windows.len(), 1);
}

#[test]
fn refresh_layout_tiles_only_tiled_windows() {
    let mut ws = Workspace::new();
    ws.push_window(tiled(1, 0, 0, 10, 10));
    ws.push_window(Window::new(2, Rect::new(500, 500, 64, 64), WindowMode::Floating));
    ws.push_window(tiled(3, 0, 0, 10, 10));
    ws.refresh_layout(zone(), 4);
    // Two tiled windows: halves, shrunk by the offset on every side.
    assert_eq!(ws.windows[0].rect, Rect::new(4, 4, 1272, 1432));
    assert_eq!(ws.windows[2].rect, Rect::new(1284, 4, 1272, 1432));
    // The floating window kept its place.
    assert_eq!(ws.windows[1].rect, Rect::new(500, 500, 64, 64));
}

#[test]
fn refresh_layout_noop_while_fullscreen() {
    let mut ws = Workspace::new();
    ws.push_window(tiled(1, 1, 2, 30, 40));
    ws.fullscreen_request(1, zone());
    let before = ws.windows[0].rect;
    ws.refresh_layout(zone(), 4);
    assert_eq!(ws.windows[0].rect, before);
}

#[test]
fn fullscreen_round_trip_restores_rectangle() {
    let mut ws = Workspace::new();
    ws.push_window(tiled(1, 0, 0, 10, 10));
    ws.push_window(tiled(2, 0, 0, 10, 10));
    ws.refresh_layout(zone(), 4);
    let before = ws.windows[1].rect;
    ws.fullscreen_request(2, zone());
    assert_eq!(ws.full_geo, Some(before));
    assert_eq!(ws.windows[1].rect, zone());
    assert!(matches!(ws.windows[1].mode, WindowMode::Fullscreen(r) if r == before));
    assert_eq!(is_fullscreen(&ws), Some(2));
    ws.unfullscreen_request();
    assert_eq!(is_fullscreen(&ws), None);
    assert_eq!(ws.windows[1].rect, before);
    assert_eq!(ws.full_geo, None);
    assert!(matches!(ws.windows[1].mode, WindowMode::Tiled));
}

#[test]
fn second_fullscreen_replaces_the_first() {
    let mut ws = Workspace::new();
    ws.push_window(tiled(1, 0, 0, 10, 10));
    ws.push_window(tiled(2, 0, 0, 10, 10));
    ws.refresh_layout(zone(), 4);
    let first = ws.windows[0].rect;
    let second = ws.windows[1].rect;
    ws.fullscreen_request(1, zone());
    ws.fullscreen_request(2, zone());
    // The first window was restored; the second is the fullscreen one.
    assert_eq!(ws.windows[0].rect, first);
    assert!(matches!(ws.windows[0].mode, WindowMode::Tiled));
    assert_eq!(ws.windows[1].rect, zone());
    assert_eq!(ws.full_geo, Some(second));
}

#[test]
fn best_window_picks_aligned_neighbor() {
    let mut ws = Workspace::new();
    ws.push_window(Window::new(1, Rect::new(0, 0, 100, 100), WindowMode::Floating));
    ws.push_window(Window::new(2, Rect::new(200, 0, 100, 100), WindowMode::Floating));
    ws.push_window(Window::new(3, Rect::new(200, 400, 100, 100), WindowMode::Floating));
    // From window 1, to the right: window 2 is aligned; 3 is diagonal.
    let r = best_window(&Direction::Right, &ws, Some(1));
    assert_eq!(r, Some((2, 200)));
    // Downwards from 1: only 3's column overlaps nothing; 2 has dy == 0.
    let r = best_window(&Direction::Down, &ws, Some(1));
    assert_eq!(r, None);
}

#[test]
fn best_window_ties_break_by_list_order() {
    let mut ws = Workspace::new();
    ws.push_window(Window::new(1, Rect::new(0, 0, 100, 100), WindowMode::Floating));
    ws.push_window(Window::new(2, Rect::new(200, 0, 100, 100), WindowMode::Floating));
    ws.push_window(Window::new(3, Rect::new(200, 0, 100, 100), WindowMode::Floating));
    let r = best_window(&Direction::Right, &ws, Some(1));
    assert_eq!(r, Some((2, 200)));
}

#[test]
fn change_focus_is_reversible_on_two_windows() {
    let mut wss = Workspaces::new(2);
    wss.insert_window(tiled(1, 0, 0, 10, 10));
    wss.insert_window(tiled(2, 0, 0, 10, 10));
    // Tile them: window 1 takes the left half, window 2 the right.
    wss.workspaces[0].refresh_layout(zone(), 4);

    wss.set_active_window(Some(1));
    let mut loc = Point::new(0, 0);
    wss.change_focus(&Direction::Right, &mut loc);
    let right_center = window_center(wss.get_current(), 2).unwrap();
    assert_eq!(loc, right_center);

    wss.set_active_window(Some(2));
    wss.change_focus(&Direction::Left, &mut loc);
    let left_center = window_center(wss.get_current(), 1).unwrap();
    assert_eq!(loc, left_center);
}

#[test]
fn change_focus_without_candidate_keeps_location() {
    let mut wss = Workspaces::new(1);
    wss.insert_window(tiled(1, 0, 0, 10, 10));
    let mut loc = Point::new(42, 17);
    wss.change_focus(&Direction::Right, &mut loc);
    assert_eq!(loc, Point::new(42, 17));
}

#[test]
fn move_window_swaps_tiling_order() {
    let mut wss = Workspaces::new(1);
    wss.insert_window(tiled(1, 0, 0, 10, 10));
    wss.insert_window(tiled(2, 0, 0, 10, 10));
    wss.workspaces[0].refresh_layout(zone(), 4);
    wss.set_active_window(Some(1));

    let mut loc = Point::new(0, 0);
    wss.move_window(&Direction::Right, &mut loc);
    let order: Vec<u64> = wss.get_current().windows.iter().map(|w| w.id).collect();
    assert_eq!(order, vec![2, 1]);
}

#[test]
fn move_window_swaps_floating_rectangles() {
    let mut wss = Workspaces::new(1);
    wss.insert_window(Window::new(1, Rect::new(0, 0, 100, 100), WindowMode::Floating));
    wss.insert_window(Window::new(2, Rect::new(300, 0, 100, 100), WindowMode::Floating));
    wss.set_active_window(Some(1));
    let mut loc = Point::new(0, 0);
    wss.move_window(&Direction::Right, &mut loc);
    let order: Vec<u64> = wss.get_current().windows.iter().map(|w| w.id).collect();
    assert_eq!(order, vec![1, 2]);
    assert_eq!(wss.get_current().windows[0].rect, Rect::new(300, 0, 100, 100));
    assert_eq!(wss.get_current().windows[1].rect, Rect::new(0, 0, 100, 100));
}

#[test]
fn window_under_respects_border_offset() {
    let mut ws = Workspace::new();
    ws.push_window(Window::new(1, Rect::new(100, 100, 50, 50), WindowMode::Floating));
    assert_eq!(window_under(&ws, Point::new(125, 125), 0), Some(1));
    assert_eq!(window_under(&ws, Point::new(97, 125), 0), None);
    assert_eq!(window_under(&ws, Point::new(97, 125), 4), Some(1));
    assert_eq!(window_under(&ws, Point::new(200, 200), 4), None);
}

#[test]
fn place_on_center_centers_the_window() {
    let mut ws = Workspace::new();
    ws.push_window(Window::new(1, Rect::new(0, 0, 400, 200), WindowMode::Floating));
    ws.place_on_center(1, Rect::new(0, 0, 2000, 1000));
    assert_eq!(ws.windows[0].rect, Rect::new(800, 400, 400, 200));
    assert_eq!(ws.windows[0].rect.size, Size::new(400, 200));
}

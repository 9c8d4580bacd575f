use kowinwm::action::Direction;
use kowinwm::geometry::{clamp_coords, Point, Rect, Size};
use kowinwm::workspaces::{Window, WindowMode, Workspaces};

#[test]
fn tiling_session_on_one_output() {
    // Four workspaces on a 2560x1440 output with a 4-unit border offset.
    let zone = Rect::new(0, 0, 2560, 1440);
    let offset = 4;
    let mut wss = Workspaces::new(4);

    // Insert window A, tiled: it gets the full output minus the offsets.
    wss.insert_window(Window::new(1, Rect::new(0, 0, 1, 1), WindowMode::Tiled));
    wss.workspaces[0].refresh_layout(zone, offset);
    assert_eq!(wss.workspaces[0].windows[0].rect, Rect::new(4, 4, 2552, 1432));

    // Insert window B: A becomes the left half, B the right half.
    wss.insert_window(Window::new(2, Rect::new(0, 0, 1, 1), WindowMode::Tiled));
    wss.workspaces[0].refresh_layout(zone, offset);
    let a = wss.workspaces[0].windows[0].rect;
    let b = wss.workspaces[0].windows[1].rect;
    assert_eq!(a, Rect::new(4, 4, 1272, 1432));
    assert_eq!(b, Rect::new(1284, 4, 1272, 1432));

    // Move A to the right while it is focused: B is a valid candidate, so
    // the two swap tiling positions and the relayout swaps the geometries.
    wss.set_active_window(Some(1));
    let mut loc = Point::new(0, 0);
    wss.move_window(&Direction::Right, &mut loc);
    wss.workspaces[0].refresh_layout(zone, offset);
    let order: Vec<u64> = wss.workspaces[0].windows.iter().map(|w| w.id).collect();
    assert_eq!(order, vec![2, 1]);
    assert_eq!(wss.workspaces[0].windows[0].rect, a);
    assert_eq!(wss.workspaces[0].windows[1].rect, b);
}

#[test]
fn geometry_helpers() {
    let r = Rect::new(10, 20, 100, 50);
    assert_eq!(r.center(), Point::new(60, 45));
    assert!(r.contains(Point::new(10, 20)));
    assert!(r.contains(Point::new(109, 69)));
    assert!(!r.contains(Point::new(110, 69)));
    assert_eq!(r.expand(2), Rect::new(8, 18, 104, 54));
}

#[test]
fn pointer_stays_on_the_output() {
    let max = Size::new(2560, 1440);
    assert_eq!(clamp_coords(Point::new(-5, 700), max), Point::new(0, 700));
    assert_eq!(clamp_coords(Point::new(3000, -1), max), Point::new(2560, 0));
    assert_eq!(clamp_coords(Point::new(100, 2000), max), Point::new(100, 1440));
    assert_eq!(clamp_coords(Point::new(100, 200), max), Point::new(100, 200));
}

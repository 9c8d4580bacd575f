use kowinwm::geometry::{Point, Rect};
use kowinwm::render::{
    render_elements, surface_under, CustomRenderElements, LayerKind, LayerSurface,
};
use kowinwm::workspaces::{Window, WindowMode, Workspace};

fn layer(id: u64, x: i32, y: i32, w: i32, h: i32, kind: LayerKind) -> LayerSurface {
    LayerSurface { id, rect: Rect::new(x, y, w, h), kind }
}

fn two_window_workspace() -> Workspace {
    let mut ws = Workspace::new();
    ws.push_window(Window::new(1, Rect::new(0, 0, 100, 100), WindowMode::Tiled));
    ws.push_window(Window::new(2, Rect::new(200, 0, 100, 100), WindowMode::Tiled));
    ws
}

#[test]
fn cursor_is_always_the_topmost_element() {
    let ws = two_window_workspace();
    let r = render_elements(&ws, Point::new(7, 9), &Vec::new(), 2);
    assert!(matches!(r[0], CustomRenderElements::Texture { loc } if loc == Point::new(7, 9)));
}

#[test]
fn frame_order_is_cursor_upper_windows_lower() {
    let mut ws = two_window_workspace();
    ws.active_window = Some(2);
    let layers = vec![
        layer(10, 0, 0, 800, 20, LayerKind::Background),
        layer(11, 0, 0, 800, 20, LayerKind::Top),
    ];
    let r = render_elements(&ws, Point::new(0, 0), &layers, 2);
    // Cursor, the top layer, then for each window (topmost first) a border
    // and its content, then the background layer.
    assert_eq!(r.len(), 7);
    assert!(matches!(r[0], CustomRenderElements::Texture { .. }));
    assert!(matches!(r[1], CustomRenderElements::Window { window: 11, .. }));
    assert!(
        matches!(r[2], CustomRenderElements::Shader { geo, active, thickness }
        if geo == Rect::new(198, -2, 104, 104) && active && thickness == 2)
    );
    assert!(matches!(r[3], CustomRenderElements::Window { window: 2, .. }));
    assert!(
        matches!(r[4], CustomRenderElements::Shader { geo, active, .. }
        if geo == Rect::new(-2, -2, 104, 104) && !active)
    );
    assert!(matches!(r[5], CustomRenderElements::Window { window: 1, .. }));
    assert!(matches!(r[6], CustomRenderElements::Window { window: 10, .. }));
}

#[test]
fn fullscreen_window_draws_alone_without_borders() {
    let mut ws = two_window_workspace();
    ws.fullscreen_request(1, Rect::new(0, 0, 800, 600));
    let layers = vec![layer(10, 0, 0, 800, 20, LayerKind::Overlay)];
    let r = render_elements(&ws, Point::new(0, 0), &layers, 2);
    assert_eq!(r.len(), 3);
    assert!(matches!(r[0], CustomRenderElements::Texture { .. }));
    assert!(matches!(r[1], CustomRenderElements::Window { window: 10, .. }));
    assert!(matches!(r[2], CustomRenderElements::Window { window: 1, .. }));
    assert!(!r.iter().any(|e| matches!(e, CustomRenderElements::Shader { .. })));
}

#[test]
fn surface_under_prefers_upper_layers_then_windows_then_lower() {
    let mut ws = Workspace::new();
    ws.push_window(Window::new(1, Rect::new(0, 0, 400, 400), WindowMode::Floating));
    let layers = vec![
        layer(10, 0, 0, 400, 400, LayerKind::Background),
        layer(11, 0, 0, 100, 100, LayerKind::Overlay),
    ];
    // Inside the overlay layer: the overlay wins over the window.
    assert_eq!(surface_under(&layers, &ws, Point::new(50, 50), 0), Some((11, Point::new(0, 0))));
    // Outside the overlay but inside the window: the window wins.
    assert_eq!(
        surface_under(&layers, &ws, Point::new(300, 300), 0),
        Some((1, Point::new(0, 0)))
    );
    // Outside everything but the background: the background.
    let mut ws_empty = Workspace::new();
    ws_empty.push_window(Window::new(2, Rect::new(900, 900, 10, 10), WindowMode::Floating));
    assert_eq!(
        surface_under(&layers, &ws_empty, Point::new(300, 300), 0),
        Some((10, Point::new(0, 0)))
    );
    // Outside everything.
    assert_eq!(surface_under(&Vec::new(), &ws_empty, Point::new(5, 5), 0), None);
}

#[test]
fn surface_under_topmost_layer_wins_within_a_half() {
    let layers = vec![
        layer(10, 0, 0, 100, 100, LayerKind::Top),
        layer(11, 0, 0, 100, 100, LayerKind::Overlay),
    ];
    let ws = Workspace::new();
    // Both contain the point; the later (higher) layer wins.
    assert_eq!(surface_under(&layers, &ws, Point::new(5, 5), 0), Some((11, Point::new(0, 0))));
}

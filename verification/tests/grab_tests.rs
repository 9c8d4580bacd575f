use kowinwm::geometry::{Point, Rect, Size};
use kowinwm::grab::{
    edge_moves_origin, grab_ends, move_grab_start_loc, MovePointerGrab, ResizeEdge,
    ResizePointerGrub, MIN_RESIZE_EDGE,
};

fn resize_grab(edges: ResizeEdge) -> ResizePointerGrub {
    ResizePointerGrub {
        start_location: Point::new(500, 500),
        window: 1,
        edges,
        start_geo: Rect::new(100, 100, 400, 300),
        last_window_size: Size::new(400, 300),
    }
}

#[test]
fn move_grab_follows_pointer_delta() {
    let grab = MovePointerGrab {
        start_location: Point::new(500, 500),
        window: 1,
        start_loc: Point::new(100, 100),
    };
    assert_eq!(grab.motion(Point::new(530, 480)), Point::new(130, 80));
    assert_eq!(grab.motion(Point::new(500, 500)), Point::new(100, 100));
}

#[test]
fn move_grab_starts_centered_under_pointer() {
    let r = move_grab_start_loc(Point::new(500, 500), Rect::new(0, 0, 400, 300));
    assert_eq!(r, Point::new(300, 350));
}

#[test]
fn resize_right_edge_grows_width_only() {
    let mut g = resize_grab(ResizeEdge::Right);
    let (loc, size) = g.motion(Point::new(550, 520));
    assert_eq!(loc, Point::new(100, 100));
    assert_eq!(size, Size::new(450, 300));
    assert_eq!(g.last_window_size, size);
}

#[test]
fn resize_left_edge_moves_origin_and_shrinks() {
    let mut g = resize_grab(ResizeEdge::Left);
    let (loc, size) = g.motion(Point::new(530, 520));
    assert_eq!(loc, Point::new(130, 100));
    assert_eq!(size, Size::new(370, 300));
}

#[test]
fn resize_top_left_moves_both_axes() {
    let mut g = resize_grab(ResizeEdge::TopLeft);
    let (loc, size) = g.motion(Point::new(510, 520));
    assert_eq!(loc, Point::new(110, 120));
    assert_eq!(size, Size::new(390, 280));
}

#[test]
fn resize_bottom_right_grows_both_axes() {
    let mut g = resize_grab(ResizeEdge::BottomRight);
    let (loc, size) = g.motion(Point::new(560, 540));
    assert_eq!(loc, Point::new(100, 100));
    assert_eq!(size, Size::new(460, 340));
}

#[test]
fn resize_clamps_to_minimum_edge() {
    let mut g = resize_grab(ResizeEdge::Right);
    // Dragging far to the left would make the width negative.
    let (_, size) = g.motion(Point::new(-500, 500));
    assert_eq!(size.w, MIN_RESIZE_EDGE);
    assert_eq!(size.h, 300);

    let mut g = resize_grab(ResizeEdge::BottomRight);
    let (_, size) = g.motion(Point::new(-500, -500));
    assert_eq!(size, Size::new(MIN_RESIZE_EDGE, MIN_RESIZE_EDGE));
}

#[test]
fn only_left_and_top_edges_move_the_origin() {
    assert!(edge_moves_origin(ResizeEdge::Left));
    assert!(edge_moves_origin(ResizeEdge::Top));
    assert!(edge_moves_origin(ResizeEdge::TopLeft));
    assert!(edge_moves_origin(ResizeEdge::BottomLeft));
    assert!(!edge_moves_origin(ResizeEdge::Right));
    assert!(!edge_moves_origin(ResizeEdge::Bottom));
    assert!(!edge_moves_origin(ResizeEdge::TopRight));
    assert!(!edge_moves_origin(ResizeEdge::BottomRight));
}

#[test]
fn grab_releases_once_no_button_is_held() {
    assert!(!grab_ends(2));
    assert!(!grab_ends(1));
    assert!(grab_ends(0));
}

use kowinwm::geometry::Rect;
use kowinwm::layout::{LayoutState, MasterStack, Placement};

fn ids(n: u64) -> Vec<u64> {
    (0..n).collect()
}

#[test]
fn placement_deterministic() {
    let layout = MasterStack {};
    let area = Rect::new(0, 0, 2560, 1440);
    let windows = ids(5);
    let a = layout.placement(&windows, area);
    let b = layout.placement(&windows, area);
    assert_eq!(a, b);
}

#[test]
fn placement_empty_for_no_windows() {
    let layout = MasterStack {};
    let area = Rect::new(0, 0, 1920, 1080);
    let r = layout.placement(&Vec::new(), area);
    assert!(r.is_empty());
}

#[test]
fn placement_single_window_gets_whole_area() {
    let layout = MasterStack {};
    let area = Rect::new(10, 20, 1920, 1080);
    let r = layout.placement(&ids(1), area);
    assert_eq!(r.len(), 1);
    assert_eq!(r[0], Placement { window: 0, geometry: area });
}

#[test]
fn placement_three_windows_master_stack_shape() {
    let layout = MasterStack {};
    let area = Rect::new(0, 0, 2560, 1440);
    let r = layout.placement(&ids(3), area);
    assert_eq!(r.len(), 3);
    // Master: left half, full height.
    assert_eq!(r[0].geometry, Rect::new(0, 0, 1280, 1440));
    // Stack: right half, stacked vertically, equal heights.
    assert_eq!(r[1].geometry, Rect::new(1280, 0, 1280, 720));
    assert_eq!(r[2].geometry, Rect::new(1280, 720, 1280, 720));
}

#[test]
fn placement_two_windows_halves() {
    let layout = MasterStack {};
    let area = Rect::new(0, 0, 2560, 1440);
    let r = layout.placement(&ids(2), area);
    assert_eq!(r[0].geometry, Rect::new(0, 0, 1280, 1440));
    assert_eq!(r[1].geometry, Rect::new(1280, 0, 1280, 1440));
}

#[test]
fn placement_area_never_exceeded() {
    let layout = MasterStack {};
    let area = Rect::new(0, 0, 1001, 777);
    for n in 0..9u64 {
        let r = layout.placement(&ids(n), area);
        let total: i64 = r
            .iter()
            .map(|p| p.geometry.size.w as i64 * p.geometry.size.h as i64)
            .sum();
        assert!(total <= 1001 * 777, "n={n}: union of areas exceeds the area");
    }
}

#[test]
fn placement_pairs_windows_in_order() {
    let layout = LayoutState::master_stack();
    let windows = vec![7u64, 3, 9];
    let area = Rect::new(0, 0, 800, 600);
    let r = layout.placement(&windows, area);
    let got: Vec<u64> = r.iter().map(|p| p.window).collect();
    assert_eq!(got, windows);
}

#[test]
fn placement_odd_width_truncates_half() {
    let layout = MasterStack {};
    let area = Rect::new(0, 0, 7, 5);
    let r = layout.placement(&ids(3), area);
    assert_eq!(r[0].geometry, Rect::new(0, 0, 3, 5));
    assert_eq!(r[1].geometry, Rect::new(3, 0, 3, 2));
    assert_eq!(r[2].geometry, Rect::new(3, 2, 3, 2));
}

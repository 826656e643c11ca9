use fht_compositor::geometry::Rect;
use fht_compositor::layout::layout;

fn rect(x: i32, y: i32, w: i32, h: i32) -> Rect {
    Rect { x, y, w, h }
}

#[test]
fn layout_zero_windows_is_empty() {
    let out = layout(0, rect(0, 0, 1920, 1080), 10, 20);
    assert!(out.is_empty());
}

#[test]
fn layout_one_window_fills_area_minus_outer_gaps() {
    let out = layout(1, rect(0, 0, 1920, 1080), 10, 20);
    assert_eq!(out.len(), 1);
    assert_eq!(out[0], rect(20, 20, 1880, 1040));
}

#[test]
fn layout_three_windows_partitions_width() {
    let out = layout(3, rect(0, 0, 1920, 1080), 10, 20);
    assert_eq!(out.len(), 3);
    // The gap-reduced area is 1880 wide starting at x = 20; strip
    // boundaries fall at 0, 626, 1253 and 1880.
    assert_eq!(out[0], rect(20, 20, 626, 1040));
    assert_eq!(out[1], rect(656, 20, 617, 1040));
    assert_eq!(out[2], rect(1283, 20, 617, 1040));
    // Pairwise disjoint along x, and the widths plus inner gaps cover the
    // area exactly.
    assert!(out[0].x + out[0].w <= out[1].x);
    assert!(out[1].x + out[1].w <= out[2].x);
    assert_eq!(out[0].w + 10 + out[1].w + 10 + out[2].w, 1880);
    assert_eq!(out[2].x + out[2].w, 20 + 1880);
}

#[test]
fn layout_identical_inputs_give_identical_geometries() {
    let a = layout(5, rect(10, 30, 1600, 900), 4, 8);
    let b = layout(5, rect(10, 30, 1600, 900), 4, 8);
    assert_eq!(a, b);
}

#[test]
fn layout_clamps_oversized_gaps() {
    let out = layout(2, rect(0, 0, 100, 100), 0, 60);
    assert_eq!(out.len(), 2);
    for r in &out {
        assert_eq!(r.w, 0);
        assert_eq!(r.h, 0);
    }
}

#[test]
fn rect_contains_and_intersects() {
    let a = rect(0, 0, 100, 100);
    let b = rect(50, 50, 100, 100);
    let c = rect(200, 0, 10, 10);
    assert!(a.contains(0, 0));
    assert!(a.contains(99, 99));
    assert!(!a.contains(100, 100));
    assert!(a.intersects(&b));
    assert!(!a.intersects(&c));
    let m = a.merge(&b);
    assert_eq!(m, rect(0, 0, 150, 150));
}

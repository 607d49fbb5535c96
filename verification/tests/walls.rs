use wavefront::components::wall::{CircWall, RectWall, WResize, WallCell};
use wavefront::math::rect::{UVec2, WRect};

fn rect_wall(x0: u32, y0: u32, x1: u32, y1: u32, hollow: bool) -> RectWall {
    RectWall::new(x0, y0, x1, y1, hollow, 0.5f32.to_bits(), 3)
}

#[test]
fn wrect_center_width_height() {
    let r = WRect::new(10, 20, 30, 25);
    assert_eq!(r.center(), UVec2 { x: 20, y: 22 });
    assert_eq!(r.width(), 21);
    assert_eq!(r.height(), 6);
    let single = WRect::new(5, 5, 5, 5);
    assert_eq!(single.width(), 1);
    assert_eq!(single.height(), 1);
}

#[test]
fn rect_wall_new_keeps_its_parts() {
    let w = rect_wall(1, 2, 3, 4, true);
    assert_eq!(w.rect, WRect::new(1, 2, 3, 4));
    assert!(w.is_hollow);
    assert_eq!(f32::from_bits(w.get_reflection_factor()), 0.5);
    assert_eq!(w.id, 3);
    assert_eq!(w.draw_pin, UVec2 { x: 1, y: 2 });
}

#[test]
fn rect_wall_contains_filled_and_hollow() {
    let filled = rect_wall(10, 10, 20, 20, false);
    assert!(filled.contains(15, 15));
    assert!(filled.contains(10, 20));
    assert!(!filled.contains(21, 15));
    let hollow = rect_wall(10, 10, 20, 20, true);
    assert!(!hollow.contains(15, 15));
    assert!(hollow.contains(10, 15));
    assert!(hollow.contains(15, 20));
    assert!(!hollow.contains(9, 15));
    assert!(hollow.edge_contains(20, 20));
    assert!(hollow.contains_pointer(15, 15));
    assert!(!hollow.contains_pointer(25, 15));
}

#[test]
fn rect_wall_is_deletable_when_one_cell_thin() {
    assert!(rect_wall(5, 5, 5, 30, false).is_deletable());
    assert!(rect_wall(5, 5, 30, 5, false).is_deletable());
    assert!(!rect_wall(5, 5, 6, 6, false).is_deletable());
}

#[test]
fn rect_wall_set_center_moves_and_clamps() {
    let mut w = rect_wall(10, 10, 20, 30, false);
    assert_eq!(w.get_center(), UVec2 { x: 15, y: 20 });
    w.set_center(100, 200);
    assert_eq!(w.rect, WRect::new(95, 190, 105, 210));
    assert_eq!(w.get_center(), UVec2 { x: 100, y: 200 });
    // pushed against the left and top border
    w.set_center(0, 0);
    assert_eq!(w.rect, WRect::new(0, 0, 10, 20));
    // pushed against the right and bottom border
    w.set_center(399, 399);
    assert_eq!(w.rect, WRect::new(389, 379, 399, 399));
}

#[test]
fn rect_wall_resize_corners_keep_two_cells() {
    let mut w = rect_wall(10, 10, 20, 20, false);
    w.resize(&WResize::TopLeft, 5, 50);
    assert_eq!(w.rect, WRect::new(5, 19, 20, 20));
    w.resize(&WResize::BottomRight, 0, 100);
    assert_eq!(w.rect, WRect::new(5, 19, 6, 100));
    w.resize(&WResize::TopRight, 30, 200);
    assert_eq!(w.rect, WRect::new(5, 99, 30, 100));
    w.resize(&WResize::BottomLeft, 40, 0);
    assert_eq!(w.rect, WRect::new(29, 99, 30, 100));
    w.resize(&WResize::Menu, 1, 1);
    assert_eq!(w.rect, WRect::new(29, 99, 30, 100));
}

#[test]
fn rect_wall_draw_spans_pin_and_pointer() {
    let mut w = rect_wall(50, 50, 50, 50, false);
    w.resize(&WResize::Draw, 70, 40);
    assert_eq!(w.rect, WRect::new(50, 40, 70, 50));
    w.resize(&WResize::Draw, 30, 60);
    assert_eq!(w.rect, WRect::new(30, 50, 50, 60));
    assert_eq!(w.draw_pin, UVec2 { x: 50, y: 50 });
}

#[test]
fn rect_wall_resize_points() {
    let w = rect_wall(10, 20, 30, 40, false);
    assert_eq!(w.get_resize_point(&WResize::TopLeft), UVec2 { x: 10, y: 20 });
    assert_eq!(w.get_resize_point(&WResize::TopRight), UVec2 { x: 30, y: 20 });
    assert_eq!(w.get_resize_point(&WResize::BottomLeft), UVec2 { x: 10, y: 40 });
    assert_eq!(w.get_resize_point(&WResize::BottomRight), UVec2 { x: 30, y: 40 });
    assert_eq!(w.get_resize_point(&WResize::Draw), UVec2 { x: 30, y: 40 });
    assert_eq!(w.get_resize_point(&WResize::Menu), UVec2 { x: 20, y: 30 });
}

#[test]
fn rect_wall_boundary_delete_behind_touching_sides() {
    let bw = 50;
    let left = rect_wall(0, 100, 10, 200, false);
    assert!(left.boundary_delete(10, 150, bw));
    assert!(!left.boundary_delete(60, 150, bw));
    assert!(!left.boundary_delete(10, 140, bw));
    let right = rect_wall(300, 100, 399, 200, false);
    assert!(right.boundary_delete(460, 200, bw));
    assert!(!right.boundary_delete(449, 200, bw));
    let inner = rect_wall(100, 100, 200, 200, false);
    assert!(!inner.boundary_delete(10, 150, bw));
}

#[test]
fn circ_wall_contains_and_pointer() {
    let w = CircWall::new(100, 100, 5, false, 1.0f32.to_bits(), 0);
    assert!(w.contains(100, 100));
    assert!(w.contains(104, 100));
    assert!(!w.contains(105, 100));
    assert!(w.contains_pointer(105, 100));
    assert!(!w.contains_pointer(106, 100));
    let hollow = CircWall::new(100, 100, 5, true, 1.0f32.to_bits(), 0);
    assert!(!hollow.contains(100, 100));
    assert!(hollow.contains_pointer(100, 100));
}

#[test]
fn circ_wall_resize_radius_is_whole_cells() {
    let mut w = CircWall::new(100, 100, 0, false, 0, 1);
    assert!(w.is_deletable());
    w.resize(&WResize::Radius, 103, 104);
    assert_eq!(w.radius, 5);
    assert_eq!(w.get_resize_point(&WResize::Radius), UVec2 { x: 103, y: 104 });
    w.resize(&WResize::Radius, 110, 110);
    assert_eq!(w.radius, 14);
    assert!(!w.is_deletable());
    w.resize(&WResize::Menu, 0, 0);
    assert_eq!(w.radius, 14);
}

#[test]
fn circ_wall_radius_agrees_with_single_precision_square_root() {
    let mut w = CircWall::new(500, 500, 0, false, 0, 1);
    for x in (0..1000u32).step_by(7) {
        for y in (0..1000u32).step_by(13) {
            w.resize(&WResize::Radius, x, y);
            let dx = 500i32 - x as i32;
            let dy = 500i32 - y as i32;
            let expected = ((dx.pow(2) + dy.pow(2)) as f32).sqrt() as u32;
            assert_eq!(w.radius, expected);
        }
    }
}

#[test]
fn circ_wall_set_center_and_boundary_delete() {
    let mut w = CircWall::new(10, 10, 20, false, 0, 1);
    w.set_center(5, 200);
    assert_eq!(w.get_center(), UVec2 { x: 5, y: 200 });
    assert_eq!(w.radius, 20);
    // the circle crosses the left border: the boundary row through its center is cut off
    assert!(w.boundary_delete(10, 250, 50));
    assert!(!w.boundary_delete(10, 251, 50));
    assert!(!w.boundary_delete(60, 250, 50));
}

#[test]
fn wall_cell_default_is_no_wall() {
    let c = WallCell::default();
    assert!(!c.is_wall);
    assert_eq!(c.reflection_factor, 0.0f32.to_bits());
}

#[test]
fn center_lies_inside_the_rectangle() {
    for (x0, y0, x1, y1) in [(0u32, 0u32, 0u32, 0u32), (3, 4, 10, 5), (0, 0, 399, 399), (7, 7, 8, 8)] {
        let c = WRect::new(x0, y0, x1, y1).center();
        assert!(x0 <= c.x && c.x <= x1 && y0 <= c.y && c.y <= y1);
    }
}

#[test]
fn moving_a_wall_keeps_its_size_and_stays_inside() {
    let mut w = rect_wall(100, 100, 140, 120, true);
    for (x, y) in [(0u32, 0u32), (399, 0), (399, 399), (0, 399), (200, 200), (1000, 5)] {
        w.set_center(x, y);
        assert_eq!(w.rect.width(), 41);
        assert_eq!(w.rect.height(), 21);
        assert!(w.rect.max.x < 400 && w.rect.max.y < 400);
    }
}

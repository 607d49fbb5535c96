use wavefront::components::wall::{CircWall, RectWall, WallCell};
use wavefront::math::constants::{SIMULATION_HEIGHT, SIMULATION_WIDTH};
use wavefront::math::transformations::{coords_to_index, index_to_coords};
use wavefront::simulation::grid::{
    boundary_layout, cell_count, cell_update, circle_outline, factor_slot,
    mark_wall_cell, update_wall_cell, update_walls, BoundaryFactor, BoundarySide, CellUpdate,
};

/// The boundary attenuation layout computed cell by cell: the ring a cell
/// lies on, and on a ring's corners the right side before the top, the top
/// before the left and the left before the bottom.
fn cell_by_cell(boundary_width: u32) -> Vec<Option<(usize, u32)>> {
    let w = SIMULATION_WIDTH + 2 * boundary_width;
    let h = SIMULATION_HEIGHT + 2 * boundary_width;
    let mut cache = vec![];
    for y in 0..h {
        for x in 0..w {
            let d = x.min(y).min(w - 1 - x).min(h - 1 - y);
            cache.push(if d >= 1 && d < boundary_width {
                let slot = if x == w - 1 - d {
                    1
                } else if y == d {
                    0
                } else if x == d {
                    3
                } else {
                    2
                };
                Some((slot, boundary_width - d))
            } else {
                None
            });
        }
    }
    cache
}

#[test]
fn boundary_layout_matches_cell_by_cell_computation() {
    for bw in [0u32, 1, 2, 3, 10, 50] {
        let layout = boundary_layout(bw);
        let expected = cell_by_cell(bw);
        assert_eq!(layout.len(), expected.len());
        for (i, entry) in layout.iter().enumerate() {
            let got = entry.map(|f| (factor_slot(f.side), f.distance));
            assert_eq!(got, expected[i], "bw {} index {}", bw, i);
        }
    }
}

#[test]
fn boundary_layout_examples() {
    let bw = 50;
    let layout = boundary_layout(bw);
    let at = |x: u32, y: u32| layout[coords_to_index(x, y, bw)];
    // outermost ring and simulated area are not damped
    assert_eq!(at(0, 10), None);
    assert_eq!(at(250, 250), None);
    assert_eq!(at(50, 50), None);
    // the inner edge of the left strip
    assert_eq!(at(49, 250), Some(BoundaryFactor { side: BoundarySide::Left, distance: 1 }));
    // the top left corner of ring 1 belongs to the top side
    assert_eq!(at(1, 1), Some(BoundaryFactor { side: BoundarySide::Top, distance: 49 }));
    // the bottom right corner of ring 1 belongs to the right side
    assert_eq!(at(498, 498), Some(BoundaryFactor { side: BoundarySide::Right, distance: 49 }));
    // the bottom left corner of ring 1 belongs to the left side
    assert_eq!(at(1, 498), Some(BoundaryFactor { side: BoundarySide::Left, distance: 49 }));
    assert_eq!(at(250, 470), Some(BoundaryFactor { side: BoundarySide::Bottom, distance: 21 }));
}

#[test]
fn cell_count_examples() {
    assert_eq!(cell_count(0), 160_000);
    assert_eq!(cell_count(50), 250_000);
}

#[test]
fn cell_update_classifies_cells() {
    let bw = 50;
    assert_eq!(cell_update(0, 100, bw, false), CellUpdate::Fixed);
    assert_eq!(cell_update(499, 100, bw, true), CellUpdate::Fixed);
    assert_eq!(cell_update(100, 100, bw, true), CellUpdate::Reflect);
    assert_eq!(cell_update(100, 100, bw, false), CellUpdate::Propagate);
    assert_eq!(cell_update(49, 100, bw, false), CellUpdate::Attenuate);
    assert_eq!(cell_update(100, 450, bw, false), CellUpdate::Attenuate);
    assert_eq!(cell_update(449, 449, bw, false), CellUpdate::Propagate);
}

#[test]
fn attenuated_cells_have_boundary_entries() {
    let bw = 7;
    let layout = boundary_layout(bw);
    for (i, entry) in layout.iter().enumerate() {
        let (x, y) = index_to_coords(i as u32, bw);
        let attenuated = cell_update(x, y, bw, false) == CellUpdate::Attenuate;
        assert_eq!(attenuated, entry.is_some());
    }
}

#[test]
fn wall_cell_last_wall_decides() {
    let bw = 10;
    let hollow = RectWall::new(20, 20, 40, 40, true, 0.8f32.to_bits(), 0);
    let filled = RectWall::new(30, 30, 50, 50, false, 0.3f32.to_bits(), 1);
    let rects = vec![hollow, filled];
    let circs: Vec<CircWall> = vec![];
    let start = WallCell { is_wall: true, reflection_factor: 7, draw_reflection_factor: 9 };
    // on the hollow wall's outline, outside the filled wall: reflects
    let c = update_wall_cell(start, 20 + bw, 25 + bw, &rects, &circs, bw);
    assert_eq!(c, WallCell { is_wall: true, reflection_factor: 0.8f32.to_bits(), draw_reflection_factor: 0.8f32.to_bits() });
    // inside both: the filled wall comes last and absorbs
    let c = update_wall_cell(start, 40 + bw, 40 + bw, &rects, &circs, bw);
    assert_eq!(c, WallCell { is_wall: true, reflection_factor: 0, draw_reflection_factor: 0.3f32.to_bits() });
    // inside the hollow wall only: no wall, the factors are kept
    let c = update_wall_cell(start, 25 + bw, 25 + bw, &rects, &circs, bw);
    assert_eq!(c, WallCell { is_wall: false, reflection_factor: 7, draw_reflection_factor: 9 });
}

#[test]
fn wall_cell_circular_walls_absorb() {
    let bw = 10;
    let rects: Vec<RectWall> = vec![];
    let circs = vec![CircWall::new(100, 100, 10, false, 0.5f32.to_bits(), 0)];
    let c = update_wall_cell(WallCell::default(), 105 + bw, 100 + bw, &rects, &circs, bw);
    assert_eq!(c, WallCell { is_wall: true, reflection_factor: 0, draw_reflection_factor: 0.5f32.to_bits() });
    let c = update_wall_cell(WallCell::default(), 110 + bw, 100 + bw, &rects, &circs, bw);
    assert!(!c.is_wall);
}

#[test]
fn update_walls_marks_every_covered_cell() {
    let bw = 5;
    let rects = vec![RectWall::new(10, 10, 12, 12, false, 1.0f32.to_bits(), 0)];
    let circs: Vec<CircWall> = vec![];
    let mut cache = vec![WallCell::default(); cell_count(bw)];
    update_walls(&mut cache, &rects, &circs, bw);
    let marked: Vec<usize> = (0..cache.len()).filter(|&i| cache[i].is_wall).collect();
    assert_eq!(marked.len(), 9);
    for y in 10..=12 {
        for x in 10..=12 {
            assert!(cache[coords_to_index(x + bw, y + bw, bw)].is_wall);
        }
    }
}

/// Midpoint circle walk written out directly, with the same filtering.
fn outline_by_walk(cx: i32, cy: i32, r: i32, bw: u32) -> Vec<(u32, u32)> {
    let w = SIMULATION_WIDTH + 2 * bw;
    let h = SIMULATION_HEIGHT + 2 * bw;
    let mut out = vec![];
    let (mut bx, mut by, mut d) = (0i32, r, 1 - r);
    while bx <= by {
        for (x, y) in [
            (cx + bx, cy + by),
            (cx + bx, cy - by),
            (cx - bx, cy + by),
            (cx - bx, cy - by),
            (cx + by, cy + bx),
            (cx + by, cy - bx),
            (cx - by, cy + bx),
            (cx - by, cy - bx),
        ] {
            let x = (x + bw as i32) as u32;
            let y = (y + bw as i32) as u32;
            if x < w && y < h {
                out.push((x, y));
            }
        }
        if d < 0 {
            d += 2 * bx + 3;
            bx += 1;
        } else {
            d += 2 * (bx - by) + 5;
            bx += 1;
            by -= 1;
        }
    }
    out
}

#[test]
fn circle_outline_matches_midpoint_walk() {
    for r in [0u32, 1, 2, 5, 17, 60, 200] {
        for (cx, cy) in [(100u32, 100u32), (0, 0), (399, 10), (200, 399)] {
            let wall = CircWall::new(cx, cy, r, true, 0, 0);
            for bw in [0u32, 3, 50] {
                assert_eq!(
                    circle_outline(&wall, bw),
                    outline_by_walk(cx as i32, cy as i32, r as i32, bw)
                );
            }
        }
    }
}

#[test]
fn circle_of_radius_one_is_three_cells_wide() {
    let wall = CircWall::new(100, 100, 1, false, 0, 0);
    let cells = circle_outline(&wall, 0);
    let min_x = cells.iter().map(|c| c.0).min().unwrap();
    let max_x = cells.iter().map(|c| c.0).max().unwrap();
    let min_y = cells.iter().map(|c| c.1).min().unwrap();
    let max_y = cells.iter().map(|c| c.1).max().unwrap();
    assert_eq!((min_x, max_x, min_y, max_y), (99, 101, 99, 101));
}

#[test]
fn circle_outline_cells_lie_near_the_circle() {
    let r = 37i64;
    let wall = CircWall::new(200, 200, r as u32, false, 0, 0);
    for (x, y) in circle_outline(&wall, 0) {
        let dx = x as i64 - 200;
        let dy = y as i64 - 200;
        let dist = dx * dx + dy * dy;
        assert!((dist - r * r).abs() <= r, "{} {}", x, y);
    }
}

#[test]
fn mark_wall_cell_sets_one_entry() {
    let bw = 2;
    let mut cache = vec![WallCell::default(); cell_count(bw)];
    mark_wall_cell(&mut cache, 3, 4, bw, 0.25f32.to_bits());
    let i = coords_to_index(3, 4, bw);
    assert_eq!(cache[i], WallCell { is_wall: true, reflection_factor: 0.25f32.to_bits(), draw_reflection_factor: 0.25f32.to_bits() });
    assert_eq!(cache.iter().filter(|c| c.is_wall).count(), 1);
}

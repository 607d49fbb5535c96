use wavefront::components::wall::{CircWall, RectWall};
use wavefront::render::overlay::{band_cells, hollow_outline, overlay_pixels, OutlinePoint, Pixel};

const BLACK: Pixel = Pixel { r: 0, g: 0, b: 0, a: 0 };

fn frame() -> Vec<Pixel> {
    vec![BLACK; 400 * 400]
}

#[test]
fn rect_wall_shades_its_cells() {
    let mut f = frame();
    overlay_pixels(&mut f, &vec![RectWall::new(1, 1, 2, 3, false, 0, 0)], &vec![]);
    let shaded = Pixel { r: 80, g: 80, b: 80, a: 255 };
    assert_eq!(f[1 + 400], shaded);
    assert_eq!(f[2 + 3 * 400], shaded);
    assert_eq!(f[0], BLACK);
    assert_eq!(f[3 + 400], BLACK);
    assert_eq!(f.iter().filter(|p| **p == shaded).count(), 6);
}

#[test]
fn overlapping_walls_shade_twice() {
    let mut f = frame();
    let w = RectWall::new(0, 0, 1, 1, false, 0, 0);
    overlay_pixels(&mut f, &vec![w, w], &vec![]);
    assert_eq!(f[0], Pixel { r: 117, g: 117, b: 134, a: 255 });
}

#[test]
fn white_pixel_is_squeezed() {
    let mut f = vec![Pixel { r: 255, g: 255, b: 255, a: 7 }; 400 * 400];
    overlay_pixels(&mut f, &vec![RectWall::new(5, 5, 5, 5, true, 0, 0)], &vec![]);
    assert_eq!(f[5 + 5 * 400], Pixel { r: 200, g: 200, b: 255, a: 255 });
}

#[test]
fn filled_circle_shades_its_disc_only() {
    let mut f = frame();
    let solid = CircWall::new(100, 100, 3, false, 0, 0);
    let hollow = CircWall::new(300, 300, 3, true, 0, 1);
    overlay_pixels(&mut f, &vec![], &vec![solid, hollow]);
    let shaded = Pixel { r: 80, g: 80, b: 80, a: 255 };
    assert_eq!(f[100 + 100 * 400], shaded);
    assert_eq!(f[102 + 100 * 400], shaded);
    assert_eq!(f[103 + 100 * 400], BLACK);
    assert_eq!(f[300 + 300 * 400], BLACK);
    // cells with dx² + dy² < 9
    assert_eq!(f.iter().filter(|p| **p == shaded).count(), 25);
}

#[test]
fn hollow_outline_of_radius_one() {
    let wall = CircWall::new(10, 10, 1, true, 0, 0);
    let points: Vec<(u32, u32, u8)> = hollow_outline(&wall).iter().map(|p| (p.x, p.y, p.octant)).collect();
    assert_eq!(
        points,
        vec![
            (10, 11, 0), (10, 9, 1), (10, 11, 2), (10, 9, 3),
            (11, 10, 4), (11, 10, 5), (9, 10, 6), (9, 10, 7),
        ]
    );
}

#[test]
fn hollow_outline_leaves_out_points_off_the_image() {
    let wall = CircWall::new(0, 0, 2, true, 0, 0);
    for p in hollow_outline(&wall) {
        assert!(p.x < 400 && p.y < 400);
    }
    assert!(hollow_outline(&wall).iter().any(|p| (p.x, p.y) == (0, 2)));
}

#[test]
fn band_runs_inward_from_the_outline() {
    let below = OutlinePoint { x: 10, y: 20, octant: 0 };
    assert_eq!(band_cells(below), Some((16..=20).map(|y| 10 + y * 400).collect::<Vec<usize>>()));
    let above = OutlinePoint { x: 10, y: 20, octant: 3 };
    assert_eq!(band_cells(above), Some((20..25).map(|y| 10 + y * 400).collect::<Vec<usize>>()));
    let right = OutlinePoint { x: 30, y: 5, octant: 5 };
    assert_eq!(band_cells(right), Some((26..=30).map(|x| x + 5 * 400).collect::<Vec<usize>>()));
    let left = OutlinePoint { x: 30, y: 5, octant: 7 };
    assert_eq!(band_cells(left), Some((30..35).map(|x| x + 5 * 400).collect::<Vec<usize>>()));
    assert_eq!(band_cells(OutlinePoint { x: 10, y: 2, octant: 2 }), None);
    assert_eq!(band_cells(OutlinePoint { x: 5, y: 398, octant: 1 }), None);
}

use wavefront::math::constants::{INIT_BOUNDARY_WIDTH, SIMULATION_HEIGHT, SIMULATION_WIDTH};
use wavefront::math::transformations::{
    coords_to_index, index_to_coords, screen_offset_to_grid, screen_to_nearest_grid,
    u32_map_range,
};

#[test]
fn coords_to_index_is_row_major() {
    let bw = INIT_BOUNDARY_WIDTH;
    let row = (SIMULATION_WIDTH + 2 * bw) as usize;
    assert_eq!(coords_to_index(0, 0, bw), 0);
    assert_eq!(coords_to_index(7, 0, bw), 7);
    assert_eq!(coords_to_index(0, 1, bw), row);
    assert_eq!(coords_to_index(3, 2, bw), 2 * row + 3);
    assert_eq!(coords_to_index(5, 5, 0), 5 * 400 + 5);
}

#[test]
fn index_to_coords_inverts_coords_to_index() {
    for bw in [0u32, 1, 7, 50] {
        let row = SIMULATION_WIDTH + 2 * bw;
        let rows = SIMULATION_HEIGHT + 2 * bw;
        for y in (0..rows).step_by(13) {
            for x in (0..row).step_by(11) {
                let i = coords_to_index(x, y, bw);
                assert_eq!(index_to_coords(i as u32, bw), (x, y));
            }
        }
    }
}

#[test]
fn index_to_coords_examples() {
    assert_eq!(index_to_coords(0, 50), (0, 0));
    assert_eq!(index_to_coords(499, 50), (499, 0));
    assert_eq!(index_to_coords(500, 50), (0, 1));
    assert_eq!(index_to_coords(1234, 0), (34, 3));
}

#[test]
fn u32_map_range_examples() {
    assert_eq!(u32_map_range(0, 100, 0, 400, 0), 0);
    assert_eq!(u32_map_range(0, 100, 0, 400, 100), 400);
    assert_eq!(u32_map_range(0, 100, 0, 400, 50), 200);
    assert_eq!(u32_map_range(0, 3, 0, 10, 1), 3);
    assert_eq!(u32_map_range(10, 20, 100, 200, 15), 150);
    assert_eq!(u32_map_range(0, 800, 0, 399, 799), 398);
}

#[test]
fn screen_to_nearest_grid_clamps_to_the_image() {
    // image at (100, 50), 800 x 800 pixels
    assert_eq!(screen_to_nearest_grid(100, 50, 100, 50, 800, 800), Some((0, 0)));
    assert_eq!(screen_to_nearest_grid(0, 0, 100, 50, 800, 800), Some((0, 0)));
    assert_eq!(screen_to_nearest_grid(900, 850, 100, 50, 800, 800), Some((399, 399)));
    assert_eq!(screen_to_nearest_grid(5000, 5000, 100, 50, 800, 800), Some((399, 399)));
    assert_eq!(screen_to_nearest_grid(500, 450, 100, 50, 800, 800), Some((199, 199)));
}

#[test]
fn screen_offset_to_grid_with_and_without_boundary() {
    // without the boundary rendered the image shows the simulated area only
    assert_eq!(screen_offset_to_grid(0, 0, 400, 400, 50, false), (0, 0));
    assert_eq!(screen_offset_to_grid(200, 100, 400, 400, 50, false), (200, 100));
    assert_eq!(screen_offset_to_grid(100, 300, 800, 800, 50, false), (50, 150));
    // with the boundary rendered, 500 cells are shown on 500 pixels
    assert_eq!(screen_offset_to_grid(50, 50, 500, 500, 50, true), (0, 0));
    assert_eq!(screen_offset_to_grid(250, 449, 500, 500, 50, true), (200, 399));
}

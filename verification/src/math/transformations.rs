use vstd::prelude::*;

use super::constants::{SIMULATION_HEIGHT, SIMULATION_WIDTH};

use vstd::arithmetic::div_mod::{lemma_fundamental_div_mod, lemma_fundamental_div_mod_converse, lemma_div_is_ordered};
use vstd::arithmetic::mul::lemma_mul_inequality;

verus! {

/// Number of cells in one row of the full grid: the simulated area plus the
/// absorbing boundary on the left and on the right.
pub open spec fn grid_width(boundary_width: u32) -> int {
    SIMULATION_WIDTH + 2 * boundary_width
}

/// Number of rows of the full grid.
pub open spec fn grid_height(boundary_width: u32) -> int {
    SIMULATION_HEIGHT + 2 * boundary_width
}

/// The row-major index of the cell at column `x` and row `y`.
pub open spec fn spec_coords_to_index(x: int, y: int, boundary_width: u32) -> int {
    y * grid_width(boundary_width) + x
}

/// Calculates 1D array index from x,y coordinates (and an offset `index`)
pub fn coords_to_index(x: u32, y: u32, boundary_width: u32) -> (index: usize)
    requires
        grid_width(boundary_width) <= u32::MAX,
        spec_coords_to_index(x as int, y as int, boundary_width) <= u32::MAX,
    ensures
        index == spec_coords_to_index(x as int, y as int, boundary_width),
{
    let row = SIMULATION_WIDTH + 2 * boundary_width;
    assert(y * row <= u32::MAX) by {
        assert(y * row + x <= u32::MAX);
    }
    (y * row + x) as usize
}

/// Calculates x, y coordinates from 1D array index
pub fn index_to_coords(i: u32, boundary_width: u32) -> (coords: (u32, u32))
    requires
        grid_width(boundary_width) <= u32::MAX,
    ensures
        coords.0 == i as int % grid_width(boundary_width),
        coords.1 == i as int / grid_width(boundary_width),
{
    let row = SIMULATION_WIDTH + 2 * boundary_width;
    let x = i % row;
    let y = i / row;
    (x, y)
}

/// The value that `s` takes when the interval `[a1, a2]` is stretched onto
/// `[b1, b2]`, rounding towards `b1`.
pub open spec fn spec_u32_map_range(a1: int, a2: int, b1: int, b2: int, s: int) -> int {
    b1 + (s - a1) * (b2 - b1) / (a2 - a1)
}

/// Maps u32 s from range a1 to a2 to b1 to b2
pub fn u32_map_range(a1: u32, a2: u32, b1: u32, b2: u32, s: u32) -> (mapped: u32)
    requires
        a1 < a2,
        a1 <= s,
        b1 <= b2,
        (s - a1) * (b2 - b1) <= u32::MAX,
        spec_u32_map_range(a1 as int, a2 as int, b1 as int, b2 as int, s as int) <= u32::MAX,
    ensures
        mapped == spec_u32_map_range(a1 as int, a2 as int, b1 as int, b2 as int, s as int),
{
    b1 + ((s - a1) * (b2 - b1) / (a2 - a1))
}

/// The boundary width that screen coordinates are measured against: the
/// absorbing boundary only takes up room on screen while it is rendered.
pub open spec fn shown_boundary_width(boundary_width: u32, render_abc_area: bool) -> int {
    if render_abc_area {
        boundary_width as int
    } else {
        0
    }
}

/// Converts an offset into the rendered image (already truncated to whole
/// pixels, and known to lie inside the image) to grid coordinates of the
/// simulated area. `width` and `height` are the image's size in whole pixels.
pub fn screen_offset_to_grid(
    x: u32,
    y: u32,
    width: u32,
    height: u32,
    boundary_width: u32,
    render_abc_area: bool,
) -> (coords: (u32, u32))
    requires
        0 < width,
        0 < height,
        SIMULATION_WIDTH + 2 * shown_boundary_width(boundary_width, render_abc_area) <= u32::MAX,
        SIMULATION_HEIGHT + 2 * shown_boundary_width(boundary_width, render_abc_area) <= u32::MAX,
        x * (SIMULATION_WIDTH + 2 * shown_boundary_width(boundary_width, render_abc_area))
            <= u32::MAX,
        y * (SIMULATION_HEIGHT + 2 * shown_boundary_width(boundary_width, render_abc_area))
            <= u32::MAX,
        spec_u32_map_range(
            0,
            width as int,
            0,
            SIMULATION_WIDTH + 2 * shown_boundary_width(boundary_width, render_abc_area),
            x as int,
        ) >= shown_boundary_width(boundary_width, render_abc_area),
        spec_u32_map_range(
            0,
            height as int,
            0,
            SIMULATION_HEIGHT + 2 * shown_boundary_width(boundary_width, render_abc_area),
            y as int,
        ) >= shown_boundary_width(boundary_width, render_abc_area),
    ensures
        coords.0 == spec_u32_map_range(
            0,
            width as int,
            0,
            SIMULATION_WIDTH + 2 * shown_boundary_width(boundary_width, render_abc_area),
            x as int,
        ) - shown_boundary_width(boundary_width, render_abc_area),
        coords.1 == spec_u32_map_range(
            0,
            height as int,
            0,
            SIMULATION_HEIGHT + 2 * shown_boundary_width(boundary_width, render_abc_area),
            y as int,
        ) - shown_boundary_width(boundary_width, render_abc_area),
{
    let boundary_width = if render_abc_area {
        boundary_width
    } else {
        0
    };
    let full_width = SIMULATION_WIDTH + 2 * boundary_width;
    let full_height = SIMULATION_HEIGHT + 2 * boundary_width;
    assert((x * full_width) as int / (width as int) <= u32::MAX) by {
        vstd::arithmetic::div_mod::lemma_div_is_ordered_by_denominator(x * full_width, 1, width as int);
    }
    assert((y * full_height) as int / (height as int) <= u32::MAX) by {
        vstd::arithmetic::div_mod::lemma_div_is_ordered_by_denominator(y * full_height, 1, height as int);
    }
    (
        u32_map_range(0, width, 0, full_width, x) - boundary_width,
        u32_map_range(0, height, 0, full_height, y) - boundary_width,
    )
}

/// How far a screen coordinate lies past the start of the image, clamped to
/// `0..=extent`.
pub open spec fn clamped_offset(p: u32, min: u32, extent: u32) -> int {
    if p < min {
        0
    } else if p - min > extent {
        extent as int
    } else {
        p - min
    }
}

/// Converts screen coordinates to the nearest cell of the simulated area
/// (`0..SIMULATION_WIDTH` and `0..SIMULATION_HEIGHT`). All arguments are
/// whole pixels: the pointer position, the image's upper-left corner and the
/// image's size.
pub fn screen_to_nearest_grid(
    x: u32,
    y: u32,
    min_x: u32,
    min_y: u32,
    width: u32,
    height: u32,
) -> (coords: Option<(u32, u32)>)
    requires
        0 < width,
        0 < height,
        clamped_offset(x, min_x, width) * (SIMULATION_WIDTH - 1) <= u32::MAX,
        clamped_offset(y, min_y, height) * (SIMULATION_HEIGHT - 1) <= u32::MAX,
    ensures
        coords == Some(
            (
                spec_u32_map_range(
                    0,
                    width as int,
                    0,
                    SIMULATION_WIDTH - 1,
                    clamped_offset(x, min_x, width),
                ) as u32,
                spec_u32_map_range(
                    0,
                    height as int,
                    0,
                    SIMULATION_HEIGHT - 1,
                    clamped_offset(y, min_y, height),
                ) as u32,
            ),
        ),
        coords.unwrap().0 < SIMULATION_WIDTH,
        coords.unwrap().1 < SIMULATION_HEIGHT,
{
    let mut x = if x < min_x {
        0
    } else {
        x - min_x
    };
    let mut y = if y < min_y {
        0
    } else {
        y - min_y
    };

    x = if x > width {
        width
    } else {
        x
    };
    y = if y > height {
        height
    } else {
        y
    };

    proof {
        lemma_u32_map_range_monotone(0, width as int, 0, SIMULATION_WIDTH - 1, x as int, x as int);
        lemma_u32_map_range_monotone(0, height as int, 0, SIMULATION_HEIGHT - 1, y as int, y as int);
    }
    Some(
        (
            u32_map_range(0, width, 0, SIMULATION_WIDTH - 1, x),
            u32_map_range(0, height, 0, SIMULATION_HEIGHT - 1, y),
        ),
    )
}

/// Turning a cell's coordinates into its index and back gives the same
/// coordinates, for every column inside the full grid.
pub proof fn lemma_index_to_coords_inverts_coords_to_index(x: int, y: int, boundary_width: u32)
    requires
        0 <= x < grid_width(boundary_width),
        0 <= y,
    ensures
        spec_coords_to_index(x, y, boundary_width) % grid_width(boundary_width) == x,
        spec_coords_to_index(x, y, boundary_width) / grid_width(boundary_width) == y,
{
    lemma_fundamental_div_mod_converse(
        spec_coords_to_index(x, y, boundary_width),
        grid_width(boundary_width),
        y,
        x,
    );
}

/// Turning an index into coordinates and back gives the same index.
pub proof fn lemma_coords_to_index_inverts_index_to_coords(i: int, boundary_width: u32)
    requires
        0 <= i,
    ensures
        0 <= i % grid_width(boundary_width) < grid_width(boundary_width),
        spec_coords_to_index(
            i % grid_width(boundary_width),
            i / grid_width(boundary_width),
            boundary_width,
        ) == i,
{
    lemma_fundamental_div_mod(i, grid_width(boundary_width));
    assert(i / grid_width(boundary_width) * grid_width(boundary_width) == grid_width(boundary_width)
        * (i / grid_width(boundary_width))) by (nonlinear_arith);
}

/// Two different cells of the full grid never share an index.
pub proof fn lemma_coords_to_index_injective(
    x1: int,
    y1: int,
    x2: int,
    y2: int,
    boundary_width: u32,
)
    requires
        0 <= x1 < grid_width(boundary_width),
        0 <= x2 < grid_width(boundary_width),
        0 <= y1,
        0 <= y2,
        spec_coords_to_index(x1, y1, boundary_width) == spec_coords_to_index(x2, y2, boundary_width),
    ensures
        x1 == x2,
        y1 == y2,
{
    lemma_index_to_coords_inverts_coords_to_index(x1, y1, boundary_width);
    lemma_index_to_coords_inverts_coords_to_index(x2, y2, boundary_width);
}

/// The start of the source interval is mapped to the start of the target
/// interval.
pub proof fn lemma_u32_map_range_start(a1: int, a2: int, b1: int, b2: int)
    requires
        a1 < a2,
    ensures
        spec_u32_map_range(a1, a2, b1, b2, a1) == b1,
{
    assert((a1 - a1) * (b2 - b1) == 0) by (nonlinear_arith);
}

/// The end of the source interval is mapped to the end of the target interval.
pub proof fn lemma_u32_map_range_end(a1: int, a2: int, b1: int, b2: int)
    requires
        a1 < a2,
    ensures
        spec_u32_map_range(a1, a2, b1, b2, a2) == b2,
{
    lemma_fundamental_div_mod_converse((a2 - a1) * (b2 - b1), a2 - a1, b2 - b1, 0);
    assert((b2 - b1) * (a2 - a1) == (a2 - a1) * (b2 - b1)) by (nonlinear_arith);
}

/// Mapping keeps the order of the values and keeps a value of the source
/// interval inside the target interval.
pub proof fn lemma_u32_map_range_monotone(a1: int, a2: int, b1: int, b2: int, s: int, t: int)
    requires
        a1 < a2,
        b1 <= b2,
        a1 <= s <= t,
    ensures
        spec_u32_map_range(a1, a2, b1, b2, s) <= spec_u32_map_range(a1, a2, b1, b2, t),
        b1 <= spec_u32_map_range(a1, a2, b1, b2, s),
        t <= a2 ==> spec_u32_map_range(a1, a2, b1, b2, t) <= b2,
{
    lemma_mul_inequality(s - a1, t - a1, b2 - b1);
    assert(0 <= (s - a1) * (b2 - b1)) by (nonlinear_arith)
        requires
            a1 <= s,
            b1 <= b2,
    ;
    lemma_div_is_ordered((s - a1) * (b2 - b1), (t - a1) * (b2 - b1), a2 - a1);
    lemma_div_is_ordered(0, (s - a1) * (b2 - b1), a2 - a1);
    if t <= a2 {
        lemma_mul_inequality(t - a1, a2 - a1, b2 - b1);
        lemma_div_is_ordered((t - a1) * (b2 - b1), (a2 - a1) * (b2 - b1), a2 - a1);
        lemma_u32_map_range_end(a1, a2, b1, b2);
    }
}

} // verus!

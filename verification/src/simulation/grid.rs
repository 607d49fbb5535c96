use vstd::prelude::*;

use crate::components::wall::{CircWall, RectWall, WallCell};
use crate::math::constants::{SIMULATION_HEIGHT, SIMULATION_WIDTH};
use crate::math::transformations::{
    grid_height, grid_width, index_to_coords, lemma_coords_to_index_inverts_index_to_coords,
    lemma_index_to_coords_inverts_coords_to_index, spec_coords_to_index,
};

verus! {

/// Number of cells of the full grid (simulated area and boundary).
pub open spec fn spec_cell_count(boundary_width: u32) -> int {
    grid_width(boundary_width) * grid_height(boundary_width)
}

/// The buffers hold exactly one entry per cell of the full grid: the index
/// of the last cell (bottom right) is one less than the count, and every
/// cell of the full grid has an index below it.
pub proof fn lemma_cell_count_covers_grid(boundary_width: u32, x: int, y: int)
    ensures
        spec_cell_count(boundary_width) == spec_coords_to_index(
            grid_width(boundary_width) - 1,
            grid_height(boundary_width) - 1,
            boundary_width,
        ) + 1,
        0 <= x < grid_width(boundary_width) && 0 <= y < grid_height(boundary_width) ==> 0
            <= spec_coords_to_index(x, y, boundary_width) < spec_cell_count(boundary_width),
        spec_cell_count(0) == SIMULATION_WIDTH * SIMULATION_HEIGHT,
{
    let w = grid_width(boundary_width);
    let h = grid_height(boundary_width);
    assert(w * h == (h - 1) * w + (w - 1) + 1) by (nonlinear_arith);
    if 0 <= x < w && 0 <= y < h {
        assert(0 <= y * w + x < w * h) by (nonlinear_arith)
            requires
                0 <= x < w,
                0 <= y < h,
        ;
    }
}

/// The number of cells that every per-cell buffer of the grid holds.
pub fn cell_count(boundary_width: u32) -> (n: usize)
    requires
        spec_cell_count(boundary_width) <= u32::MAX,
    ensures
        n == spec_cell_count(boundary_width),
{
    assert(grid_width(boundary_width) <= u32::MAX && grid_height(boundary_width) <= u32::MAX)
        by (nonlinear_arith)
        requires
            grid_width(boundary_width) * grid_height(boundary_width) <= u32::MAX,
            grid_width(boundary_width) >= 1,
            grid_height(boundary_width) >= 1,
    ;
    ((SIMULATION_WIDTH + 2 * boundary_width) * (SIMULATION_HEIGHT + 2 * boundary_width)) as usize
}

/// The distance of the cell `(x, y)` from the outer border of the full grid:
/// 0 for the outermost ring of cells, 1 for the next one, and so on.
pub open spec fn ring(x: int, y: int, boundary_width: u32) -> int {
    let gx = grid_width(boundary_width) - 1 - x;
    let gy = grid_height(boundary_width) - 1 - y;
    let a = if x <= y {
        x
    } else {
        y
    };
    let b = if gx <= gy {
        gx
    } else {
        gy
    };
    if a <= b {
        a
    } else {
        b
    }
}

/// The side of the grid whose boundary strip a cell belongs to.
#[derive(Clone, Copy, Debug, PartialEq, Eq, Structural)]
pub enum BoundarySide {
    Bottom,
    Left,
    Top,
    Right,
}

/// Where a cell of the absorbing boundary is damped: the side of the grid it
/// faces and its distance `boundary_width - ring` to the inner edge of the
/// boundary, from which the attenuation factor is computed.
#[derive(Clone, Copy, Debug, PartialEq, Eq, Structural)]
pub struct BoundaryFactor {
    pub side: BoundarySide,
    pub distance: u32,
}

/// The damping of the cell `(x, y)`. Cells of the rings `1..boundary_width`
/// are damped; on a corner of a ring the right side wins over the top, the
/// top over the left, and the left over the bottom. The outermost ring and
/// the simulated area are not damped.
pub open spec fn spec_boundary_factor(x: int, y: int, boundary_width: u32) -> Option<
    BoundaryFactor,
> {
    let d = ring(x, y, boundary_width);
    if 1 <= d < boundary_width {
        let side = if x == grid_width(boundary_width) - 1 - d {
            BoundarySide::Right
        } else if y == d {
            BoundarySide::Top
        } else if x == d {
            BoundarySide::Left
        } else {
            BoundarySide::Bottom
        };
        Some(BoundaryFactor { side, distance: (boundary_width - d) as u32 })
    } else {
        None
    }
}

/// Every ring of the boundary shares one attenuation factor: two damped
/// cells on the same ring have the same distance, and the distance grows
/// towards the outer border.
pub proof fn lemma_ring_shares_distance(x1: int, y1: int, x2: int, y2: int, boundary_width: u32)
    requires
        spec_boundary_factor(x1, y1, boundary_width) is Some,
        spec_boundary_factor(x2, y2, boundary_width) is Some,
    ensures
        ring(x1, y1, boundary_width) == ring(x2, y2, boundary_width) ==> spec_boundary_factor(
            x1,
            y1,
            boundary_width,
        )->0.distance == spec_boundary_factor(x2, y2, boundary_width)->0.distance,
        ring(x1, y1, boundary_width) < ring(x2, y2, boundary_width) ==> spec_boundary_factor(
            x1,
            y1,
            boundary_width,
        )->0.distance > spec_boundary_factor(x2, y2, boundary_width)->0.distance,
{
}

/// Position of the damped neighbour pulse in a cell's list of four
/// attenuation factors (bottom, left, top, right neighbour).
pub open spec fn spec_factor_slot(side: BoundarySide) -> int {
    match side {
        BoundarySide::Bottom => 2,
        BoundarySide::Left => 3,
        BoundarySide::Top => 0,
        BoundarySide::Right => 1,
    }
}

/// The position, among a boundary cell's four attenuation factors, of the one
/// that is damped; the other three are 1.
pub fn factor_slot(side: BoundarySide) -> (slot: usize)
    ensures
        slot == spec_factor_slot(side),
        slot < 4,
{
    match side {
        BoundarySide::Bottom => 2,
        BoundarySide::Left => 3,
        BoundarySide::Top => 0,
        BoundarySide::Right => 1,
    }
}

/// The cell `(x, y)` lies on side `side` (0 bottom, 1 left, 2 top, 3 right)
/// of ring `r` of the full grid.
pub open spec fn on_ring_side(x: int, y: int, r: int, side: int, boundary_width: u32) -> bool {
    let gw = grid_width(boundary_width);
    let gh = grid_height(boundary_width);
    if side == 0 {
        y == gh - 1 - r && r <= x < gw - r
    } else if side == 1 {
        x == r && r <= y < gh - r
    } else if side == 2 {
        y == r && r <= x < gw - r
    } else {
        x == gw - 1 - r && r <= y < gh - r
    }
}

/// Where a cell lies along a side of a ring: its column on the bottom and
/// top sides, its row on the left and right sides.
pub open spec fn along_side(x: int, y: int, side: int) -> int {
    if side == 0 || side == 2 {
        x
    } else {
        y
    }
}

/// The side of the grid that side number `side` of a ring faces.
pub open spec fn side_of(side: int) -> BoundarySide {
    if side == 0 {
        BoundarySide::Bottom
    } else if side == 1 {
        BoundarySide::Left
    } else if side == 2 {
        BoundarySide::Top
    } else {
        BoundarySide::Right
    }
}

/// While ring `r` is being written side after side, with `side` the side at
/// hand and `k` the position along it up to which it has been written: the
/// side `s` has been written at `(x, y)`.
pub open spec fn side_written(
    x: int,
    y: int,
    r: int,
    s: int,
    side: int,
    k: int,
    boundary_width: u32,
) -> bool {
    on_ring_side(x, y, r, s, boundary_width) && (s < side || (s == side && along_side(x, y, s)
        < k))
}

/// The entry of `(x, y)` while ring `r` is being written: the last side
/// written there.
pub open spec fn ring_progress(x: int, y: int, r: int, side: int, k: int, boundary_width: u32) -> Option<
    BoundaryFactor,
> {
    let distance = (boundary_width - r) as u32;
    if side_written(x, y, r, 3, side, k, boundary_width) {
        Some(BoundaryFactor { side: BoundarySide::Right, distance })
    } else if side_written(x, y, r, 2, side, k, boundary_width) {
        Some(BoundaryFactor { side: BoundarySide::Top, distance })
    } else if side_written(x, y, r, 1, side, k, boundary_width) {
        Some(BoundaryFactor { side: BoundarySide::Left, distance })
    } else if side_written(x, y, r, 0, side, k, boundary_width) {
        Some(BoundaryFactor { side: BoundarySide::Bottom, distance })
    } else {
        None
    }
}

/// The entry of `(x, y)` while the layout is written ring after ring from
/// the outside in: rings inside `1..r` are complete, ring `r` is in progress.
pub open spec fn layout_progress(x: int, y: int, r: int, side: int, k: int, boundary_width: u32) -> Option<
    BoundaryFactor,
> {
    if 1 <= ring(x, y, boundary_width) < r {
        spec_boundary_factor(x, y, boundary_width)
    } else {
        ring_progress(x, y, r, side, k, boundary_width)
    }
}

/// The index of a cell of the full grid is below the cell count.
pub proof fn lemma_index_in_grid(x: int, y: int, boundary_width: u32)
    requires
        0 <= x < grid_width(boundary_width),
        0 <= y < grid_height(boundary_width),
    ensures
        0 <= spec_coords_to_index(x, y, boundary_width) < spec_cell_count(boundary_width),
{
    let gw = grid_width(boundary_width);
    let gh = grid_height(boundary_width);
    assert(0 <= y * gw + x < gw * gh) by (nonlinear_arith)
        requires
            0 <= x < gw,
            0 <= y < gh,
    ;
}

/// A cell on a side of ring `r` belongs to ring `r`.
proof fn lemma_on_side_ring(x: int, y: int, r: int, s: int, boundary_width: u32)
    requires
        0 <= r < boundary_width,
        0 <= s < 4,
        on_ring_side(x, y, r, s, boundary_width),
    ensures
        ring(x, y, boundary_width) == r,
        0 <= x < grid_width(boundary_width),
        0 <= y < grid_height(boundary_width),
{
}

/// Once all four sides of ring `r` are written, every cell of the ring holds
/// its damping and no other cell has been touched.
proof fn lemma_ring_complete(x: int, y: int, r: int, boundary_width: u32)
    requires
        1 <= r < boundary_width,
        0 <= x < grid_width(boundary_width),
        0 <= y < grid_height(boundary_width),
    ensures
        ring_progress(x, y, r, 3, grid_height(boundary_width) - r, boundary_width) == if ring(
            x,
            y,
            boundary_width,
        ) == r {
            spec_boundary_factor(x, y, boundary_width)
        } else {
            None
        },
{
    if on_ring_side(x, y, r, 0, boundary_width) {
        lemma_on_side_ring(x, y, r, 0, boundary_width);
    }
    if on_ring_side(x, y, r, 1, boundary_width) {
        lemma_on_side_ring(x, y, r, 1, boundary_width);
    }
    if on_ring_side(x, y, r, 2, boundary_width) {
        lemma_on_side_ring(x, y, r, 2, boundary_width);
    }
    if on_ring_side(x, y, r, 3, boundary_width) {
        lemma_on_side_ring(x, y, r, 3, boundary_width);
    }
}

/// Writing the cell at position `k` of side `side` of ring `r` advances the
/// layout in progress by one cell.
proof fn lemma_progress_step(
    before: Seq<Option<BoundaryFactor>>,
    after: Seq<Option<BoundaryFactor>>,
    cx: int,
    cy: int,
    r: int,
    side: int,
    k: int,
    boundary_width: u32,
)
    requires
        1 <= r < boundary_width,
        0 <= side < 4,
        on_ring_side(cx, cy, r, side, boundary_width),
        along_side(cx, cy, side) == k,
        before.len() == spec_cell_count(boundary_width),
        after == before.update(
            spec_coords_to_index(cx, cy, boundary_width),
            Some(BoundaryFactor { side: side_of(side), distance: (boundary_width - r) as u32 }),
        ),
        forall|i: int|
            0 <= i < before.len() ==> #[trigger] before[i] == layout_progress(
                i % grid_width(boundary_width),
                i / grid_width(boundary_width),
                r,
                side,
                k,
                boundary_width,
            ),
    ensures
        forall|i: int|
            0 <= i < after.len() ==> #[trigger] after[i] == layout_progress(
                i % grid_width(boundary_width),
                i / grid_width(boundary_width),
                r,
                side,
                k + 1,
                boundary_width,
            ),
{
    let gw = grid_width(boundary_width);
    lemma_on_side_ring(cx, cy, r, side, boundary_width);
    let j = spec_coords_to_index(cx, cy, boundary_width);
    lemma_index_to_coords_inverts_coords_to_index(cx, cy, boundary_width);
    lemma_index_in_grid(cx, cy, boundary_width);
    assert forall|i: int| 0 <= i < after.len() implies #[trigger] after[i] == layout_progress(
        i % gw,
        i / gw,
        r,
        side,
        k + 1,
        boundary_width,
    ) by {
        lemma_coords_to_index_inverts_index_to_coords(i, boundary_width);
        if i != j {
            assert(i % gw != cx || i / gw != cy);
            assert(after[i] == before[i]);
        }
    }
}

/// Computes, for every cell of the full grid in row-major order, where the
/// absorbing boundary damps it. The layout is written ring after ring from
/// the outside in, each ring's bottom, left, top and right side in turn (a
/// corner keeps the side written last). This is the layout of the grid's
/// boundary cache: the attenuation factors themselves follow from each
/// entry's distance.
pub fn boundary_layout(boundary_width: u32) -> (layout: Vec<Option<BoundaryFactor>>)
    requires
        spec_cell_count(boundary_width) <= u32::MAX,
    ensures
        layout.len() == spec_cell_count(boundary_width),
        forall|i: int|
            0 <= i < layout.len() ==> #[trigger] layout@[i] == spec_boundary_factor(
                i % grid_width(boundary_width),
                i / grid_width(boundary_width),
                boundary_width,
            ),
{
    let n = cell_count(boundary_width);
    assert(grid_width(boundary_width) <= u32::MAX && grid_height(boundary_width) <= u32::MAX)
        by (nonlinear_arith)
        requires
            grid_width(boundary_width) * grid_height(boundary_width) <= u32::MAX,
            grid_width(boundary_width) >= 1,
            grid_height(boundary_width) >= 1,
    ;
    let ghost gw = grid_width(boundary_width);
    let w = SIMULATION_WIDTH + 2 * boundary_width;
    let h = SIMULATION_HEIGHT + 2 * boundary_width;

    let mut layout: Vec<Option<BoundaryFactor>> = Vec::new();
    let mut i: usize = 0;
    while i < n
        invariant
            i <= n,
            layout.len() == i,
            forall|j: int| 0 <= j < i ==> #[trigger] layout@[j] is None,
        decreases n - i,
    {
        layout.push(None);
        i = i + 1;
    }

    // going in 'rings' from outer to inner
    let mut r: u32 = 1;
    while r < boundary_width
        invariant
            n == spec_cell_count(boundary_width),
            n <= u32::MAX,
            w == grid_width(boundary_width),
            h == grid_height(boundary_width),
            w <= u32::MAX,
            h <= u32::MAX,
            gw == w,
            1 <= r,
            r <= boundary_width || r == 1,
            layout.len() == n,
            forall|j: int|
                0 <= j < n ==> #[trigger] layout@[j] == layout_progress(
                    j % gw,
                    j / gw,
                    r as int,
                    0,
                    r as int,
                    boundary_width,
                ),
        decreases boundary_width - r,
    {
        let distance = boundary_width - r;
        // bottom
        let y = h - r - 1;
        let mut x = r;
        while x < w - r
            invariant
                n == spec_cell_count(boundary_width),
                n <= u32::MAX,
                w == grid_width(boundary_width),
                h == grid_height(boundary_width),
                gw == w,
                1 <= r < boundary_width,
                distance == boundary_width - r,
                y == h - r - 1,
                r <= x <= w - r,
                layout.len() == n,
                forall|j: int|
                    0 <= j < n ==> #[trigger] layout@[j] == layout_progress(
                        j % gw,
                        j / gw,
                        r as int,
                        0,
                        x as int,
                        boundary_width,
                    ),
            decreases w - r - x,
        {
            proof {
                lemma_on_side_ring(x as int, y as int, r as int, 0, boundary_width);
                lemma_index_in_grid(x as int, y as int, boundary_width);
            }
            let index = crate::math::transformations::coords_to_index(x, y, boundary_width);
            let ghost before = layout@;
            layout.set(index, Some(BoundaryFactor { side: BoundarySide::Bottom, distance }));
            proof {
                lemma_progress_step(before, layout@, x as int, y as int, r as int, 0, x as int, boundary_width);
            }
            x = x + 1;
        }
        // left
        let x = r;
        let mut y = r;
        assert forall|j: int| 0 <= j < n implies #[trigger] layout@[j] == layout_progress(
            j % gw,
            j / gw,
            r as int,
            1,
            r as int,
            boundary_width,
        ) by {
            lemma_coords_to_index_inverts_index_to_coords(j, boundary_width);
        }
        while y < h - r
            invariant
                n == spec_cell_count(boundary_width),
                n <= u32::MAX,
                w == grid_width(boundary_width),
                h == grid_height(boundary_width),
                gw == w,
                1 <= r < boundary_width,
                distance == boundary_width - r,
                x == r,
                r <= y <= h - r,
                layout.len() == n,
                forall|j: int|
                    0 <= j < n ==> #[trigger] layout@[j] == layout_progress(
                        j % gw,
                        j / gw,
                        r as int,
                        1,
                        y as int,
                        boundary_width,
                    ),
            decreases h - r - y,
        {
            proof {
                lemma_on_side_ring(x as int, y as int, r as int, 1, boundary_width);
                lemma_index_in_grid(x as int, y as int, boundary_width);
            }
            let index = crate::math::transformations::coords_to_index(x, y, boundary_width);
            let ghost before = layout@;
            layout.set(index, Some(BoundaryFactor { side: BoundarySide::Left, distance }));
            proof {
                lemma_progress_step(before, layout@, x as int, y as int, r as int, 1, y as int, boundary_width);
            }
            y = y + 1;
        }
        // top
        let y = r;
        let mut x = r;
        assert forall|j: int| 0 <= j < n implies #[trigger] layout@[j] == layout_progress(
            j % gw,
            j / gw,
            r as int,
            2,
            r as int,
            boundary_width,
        ) by {
            lemma_coords_to_index_inverts_index_to_coords(j, boundary_width);
        }
        while x < w - r
            invariant
                n == spec_cell_count(boundary_width),
                n <= u32::MAX,
                w == grid_width(boundary_width),
                h == grid_height(boundary_width),
                gw == w,
                1 <= r < boundary_width,
                distance == boundary_width - r,
                y == r,
                r <= x <= w - r,
                layout.len() == n,
                forall|j: int|
                    0 <= j < n ==> #[trigger] layout@[j] == layout_progress(
                        j % gw,
                        j / gw,
                        r as int,
                        2,
                        x as int,
                        boundary_width,
                    ),
            decreases w - r - x,
        {
            proof {
                lemma_on_side_ring(x as int, y as int, r as int, 2, boundary_width);
                lemma_index_in_grid(x as int, y as int, boundary_width);
            }
            let index = crate::math::transformations::coords_to_index(x, y, boundary_width);
            let ghost before = layout@;
            layout.set(index, Some(BoundaryFactor { side: BoundarySide::Top, distance }));
            proof {
                lemma_progress_step(before, layout@, x as int, y as int, r as int, 2, x as int, boundary_width);
            }
            x = x + 1;
        }
        // right
        let x = w - r - 1;
        let mut y = r;
        assert forall|j: int| 0 <= j < n implies #[trigger] layout@[j] == layout_progress(
            j % gw,
            j / gw,
            r as int,
            3,
            r as int,
            boundary_width,
        ) by {
            lemma_coords_to_index_inverts_index_to_coords(j, boundary_width);
        }
        while y < h - r
            invariant
                n == spec_cell_count(boundary_width),
                n <= u32::MAX,
                w == grid_width(boundary_width),
                h == grid_height(boundary_width),
                gw == w,
                1 <= r < boundary_width,
                distance == boundary_width - r,
                x == w - r - 1,
                r <= y <= h - r,
                layout.len() == n,
                forall|j: int|
                    0 <= j < n ==> #[trigger] layout@[j] == layout_progress(
                        j % gw,
                        j / gw,
                        r as int,
                        3,
                        y as int,
                        boundary_width,
                    ),
            decreases h - r - y,
        {
            proof {
                lemma_on_side_ring(x as int, y as int, r as int, 3, boundary_width);
                lemma_index_in_grid(x as int, y as int, boundary_width);
            }
            let index = crate::math::transformations::coords_to_index(x, y, boundary_width);
            let ghost before = layout@;
            layout.set(index, Some(BoundaryFactor { side: BoundarySide::Right, distance }));
            proof {
                lemma_progress_step(before, layout@, x as int, y as int, r as int, 3, y as int, boundary_width);
            }
            y = y + 1;
        }
        assert forall|j: int| 0 <= j < n implies #[trigger] layout@[j] == layout_progress(
            j % gw,
            j / gw,
            r + 1,
            0,
            r + 1,
            boundary_width,
        ) by {
            lemma_row_in_grid(j, boundary_width);
            lemma_ring_complete(j % gw, j / gw, r as int, boundary_width);
        }
        r = r + 1;
    }
    assert forall|j: int| 0 <= j < n implies #[trigger] layout@[j] == spec_boundary_factor(
        j % gw,
        j / gw,
        boundary_width,
    ) by {
        lemma_row_in_grid(j, boundary_width);
    }
    layout
}

/// An index below the cell count lies in a row of the full grid.
pub proof fn lemma_row_in_grid(i: int, boundary_width: u32)
    requires
        0 <= i < spec_cell_count(boundary_width),
    ensures
        0 <= i % grid_width(boundary_width) < grid_width(boundary_width),
        0 <= i / grid_width(boundary_width) < grid_height(boundary_width),
{
    lemma_coords_to_index_inverts_index_to_coords(i, boundary_width);
    let gw = grid_width(boundary_width);
    let gh = grid_height(boundary_width);
    let q = i / gw;
    let r = i % gw;
    assert(0 <= q < gh) by (nonlinear_arith)
        requires
            q * gw + r == i,
            0 <= r < gw,
            0 <= i < gw * gh,
            gw > 0,
    ;
}

/// How a cell's outgoing pulses are computed in one simulation step.
#[derive(Clone, Copy, Debug, PartialEq, Eq, Structural)]
pub enum CellUpdate {
    /// The outermost ring of the grid: its pulses are left as they are.
    Fixed,
    /// A wall cell: incoming pulses are reflected back, scaled by the wall's
    /// reflection factor.
    Reflect,
    /// A cell of the simulated area: pulses are scattered freely.
    Propagate,
    /// A cell of the absorbing boundary: pulses are scattered, the one coming
    /// from the inner side damped by the cell's attenuation factor.
    Attenuate,
}

/// The cell `(x, y)` lies in the simulated area of the full grid.
pub open spec fn in_simulated_area(x: int, y: int, boundary_width: u32) -> bool {
    boundary_width <= x < SIMULATION_WIDTH + boundary_width && boundary_width <= y
        < SIMULATION_HEIGHT + boundary_width
}

/// How the cell `(x, y)` is updated, given whether a wall covers it.
pub open spec fn spec_cell_update(x: int, y: int, boundary_width: u32, is_wall: bool) -> CellUpdate {
    if 0 < x < grid_width(boundary_width) - 1 && 0 < y < grid_height(boundary_width) - 1 {
        if is_wall {
            CellUpdate::Reflect
        } else if in_simulated_area(x, y, boundary_width) {
            CellUpdate::Propagate
        } else {
            CellUpdate::Attenuate
        }
    } else {
        CellUpdate::Fixed
    }
}

/// Decides how the cell at column `x` and row `y` of the full grid is updated
/// in a simulation step.
pub fn cell_update(x: u32, y: u32, boundary_width: u32, is_wall: bool) -> (u: CellUpdate)
    requires
        grid_width(boundary_width) <= u32::MAX,
        grid_height(boundary_width) <= u32::MAX,
    ensures
        u == spec_cell_update(x as int, y as int, boundary_width, is_wall),
{
    if x > 0 && x < SIMULATION_WIDTH + 2 * boundary_width - 1 && y > 0 && y < SIMULATION_HEIGHT + 2
        * boundary_width - 1 {
        if is_wall {
            CellUpdate::Reflect
        } else if x >= boundary_width && x < SIMULATION_WIDTH + boundary_width && y
            < SIMULATION_HEIGHT + boundary_width && y >= boundary_width {
            CellUpdate::Propagate
        } else {
            CellUpdate::Attenuate
        }
    } else {
        CellUpdate::Fixed
    }
}

/// Every cell of the grid gets one of the four updates: the outermost ring
/// of the full grid stays fixed, wall or not; any other wall cell reflects;
/// a cell of the simulated area without a wall propagates (the simulated
/// area lies inside the outermost ring when there is a boundary); a cell of
/// the boundary without a wall is damped.
pub proof fn lemma_cell_update_cases(x: int, y: int, boundary_width: u32, is_wall: bool)
    requires
        0 <= x < grid_width(boundary_width),
        0 <= y < grid_height(boundary_width),
    ensures
        (x == 0 || y == 0 || x == grid_width(boundary_width) - 1 || y == grid_height(
            boundary_width,
        ) - 1) ==> spec_cell_update(x, y, boundary_width, is_wall) == CellUpdate::Fixed,
        !(x == 0 || y == 0 || x == grid_width(boundary_width) - 1 || y == grid_height(
            boundary_width,
        ) - 1) && is_wall ==> spec_cell_update(x, y, boundary_width, is_wall)
            == CellUpdate::Reflect,
        boundary_width >= 1 && in_simulated_area(x, y, boundary_width) && !is_wall
            ==> spec_cell_update(x, y, boundary_width, is_wall) == CellUpdate::Propagate,
        !(x == 0 || y == 0 || x == grid_width(boundary_width) - 1 || y == grid_height(
            boundary_width,
        ) - 1) && !in_simulated_area(x, y, boundary_width) && !is_wall ==> spec_cell_update(
            x,
            y,
            boundary_width,
            is_wall,
        ) == CellUpdate::Attenuate,
{
}

/// A cell that is not a wall is attenuated exactly when the boundary layout
/// holds a damping entry for it: the boundary cache covers the whole
/// absorbing boundary and nothing else.
pub proof fn lemma_attenuated_cells_have_factors(x: int, y: int, boundary_width: u32)
    requires
        0 <= x < grid_width(boundary_width),
        0 <= y < grid_height(boundary_width),
    ensures
        spec_cell_update(x, y, boundary_width, false) == CellUpdate::Attenuate
            <==> spec_boundary_factor(x, y, boundary_width) is Some,
        spec_cell_update(x, y, boundary_width, false) == CellUpdate::Propagate
            ==> ring(x, y, boundary_width) >= boundary_width,
{
}

/// `a - b`, or 0 where that would be negative.
pub open spec fn saturating_sub(a: int, b: int) -> int {
    if a >= b {
        a - b
    } else {
        0
    }
}

/// The cache entry of the cell `(x, y)` of the full grid after the
/// rectangular walls `walls` have been laid over `cell` in order: a wall whose
/// outline covers the cell makes it reflect with the wall's factor; a wall
/// whose inside covers it, or that cuts off the boundary behind it, makes it
/// absorb (factor 0) while it is drawn in the wall's factor. The last wall
/// that covers the cell decides.
pub open spec fn spec_rect_walls_cell(
    cell: WallCell,
    walls: Seq<RectWall>,
    x: int,
    y: int,
    boundary_width: u32,
) -> WallCell
    decreases walls.len(),
{
    if walls.len() == 0 {
        cell
    } else {
        let prev = spec_rect_walls_cell(cell, walls.drop_last(), x, y, boundary_width);
        let w = walls.last();
        let sx = saturating_sub(x, boundary_width as int);
        let sy = saturating_sub(y, boundary_width as int);
        if w.spec_on_edge(sx, sy) {
            WallCell {
                is_wall: true,
                reflection_factor: w.reflection_factor,
                draw_reflection_factor: w.reflection_factor,
            }
        } else if w.spec_contains(sx, sy) || w.spec_boundary_delete(x, y, boundary_width as int) {
            WallCell {
                is_wall: true,
                reflection_factor: 0,
                draw_reflection_factor: w.reflection_factor,
            }
        } else {
            prev
        }
    }
}

/// The cache entry of the cell `(x, y)` after the circular walls `walls` have
/// been laid over `cell` in order: a wall whose disc covers the cell, or that
/// cuts off the boundary behind it, makes it absorb while it is drawn in the
/// wall's factor. The last wall that covers the cell decides.
pub open spec fn spec_circ_walls_cell(
    cell: WallCell,
    walls: Seq<CircWall>,
    x: int,
    y: int,
    boundary_width: u32,
) -> WallCell
    decreases walls.len(),
{
    if walls.len() == 0 {
        cell
    } else {
        let prev = spec_circ_walls_cell(cell, walls.drop_last(), x, y, boundary_width);
        let w = walls.last();
        let sx = saturating_sub(x, boundary_width as int);
        let sy = saturating_sub(y, boundary_width as int);
        if w.spec_contains(sx, sy) || w.spec_boundary_delete(x, y, boundary_width as int) {
            WallCell {
                is_wall: true,
                reflection_factor: 0,
                draw_reflection_factor: w.reflection_factor,
            }
        } else {
            prev
        }
    }
}

/// The cache entry of the cell `(x, y)` computed from its previous entry: the
/// cell starts out as no wall (keeping its factors) and the rectangular, then
/// the circular walls are laid over it.
pub open spec fn spec_wall_cell(
    cell: WallCell,
    rect_walls: Seq<RectWall>,
    circ_walls: Seq<CircWall>,
    x: int,
    y: int,
    boundary_width: u32,
) -> WallCell {
    spec_circ_walls_cell(
        spec_rect_walls_cell(WallCell { is_wall: false, ..cell }, rect_walls, x, y, boundary_width),
        circ_walls,
        x,
        y,
        boundary_width,
    )
}

/// The rectangular wall `w` lays itself over the full-grid cell `(x, y)`:
/// its outline or its covered area holds the cell, or it cuts off the
/// boundary there.
#[verifier::opaque]
pub open spec fn rect_wall_covers(w: RectWall, x: int, y: int, boundary_width: u32) -> bool {
    let sx = saturating_sub(x, boundary_width as int);
    let sy = saturating_sub(y, boundary_width as int);
    w.spec_on_edge(sx, sy) || w.spec_contains(sx, sy) || w.spec_boundary_delete(
        x,
        y,
        boundary_width as int,
    )
}

/// The circular wall `w` lays itself over the full-grid cell `(x, y)`.
#[verifier::opaque]
pub open spec fn circ_wall_covers(w: CircWall, x: int, y: int, boundary_width: u32) -> bool {
    let sx = saturating_sub(x, boundary_width as int);
    let sy = saturating_sub(y, boundary_width as int);
    w.spec_contains(sx, sy) || w.spec_boundary_delete(x, y, boundary_width as int)
}

/// The index of the last rectangular wall that covers the cell, if any.
pub open spec fn last_rect_cover(walls: Seq<RectWall>, x: int, y: int, boundary_width: u32) -> Option<int>
    decreases walls.len(),
{
    if walls.len() == 0 {
        None
    } else if rect_wall_covers(walls.last(), x, y, boundary_width) {
        Some(walls.len() - 1)
    } else {
        last_rect_cover(walls.drop_last(), x, y, boundary_width)
    }
}

/// The index of the last circular wall that covers the cell, if any.
pub open spec fn last_circ_cover(walls: Seq<CircWall>, x: int, y: int, boundary_width: u32) -> Option<int>
    decreases walls.len(),
{
    if walls.len() == 0 {
        None
    } else if circ_wall_covers(walls.last(), x, y, boundary_width) {
        Some(walls.len() - 1)
    } else {
        last_circ_cover(walls.drop_last(), x, y, boundary_width)
    }
}

proof fn lemma_last_rect_cover(walls: Seq<RectWall>, x: int, y: int, boundary_width: u32)
    ensures
        match last_rect_cover(walls, x, y, boundary_width) {
            Some(k) => 0 <= k < walls.len() && rect_wall_covers(walls[k], x, y, boundary_width)
                && forall|j: int|
                k < j < walls.len() ==> !#[trigger] rect_wall_covers(walls[j], x, y, boundary_width),
            None => forall|j: int|
                0 <= j < walls.len() ==> !#[trigger] rect_wall_covers(walls[j], x, y, boundary_width),
        },
    decreases walls.len(),
{
    if walls.len() > 0 {
        let rest = walls.drop_last();
        lemma_last_rect_cover(rest, x, y, boundary_width);
        assert forall|j: int| 0 <= j < rest.len() implies rest[j] == walls[j] by {}
    }
}

proof fn lemma_last_circ_cover(walls: Seq<CircWall>, x: int, y: int, boundary_width: u32)
    ensures
        match last_circ_cover(walls, x, y, boundary_width) {
            Some(k) => 0 <= k < walls.len() && circ_wall_covers(walls[k], x, y, boundary_width)
                && forall|j: int|
                k < j < walls.len() ==> !#[trigger] circ_wall_covers(walls[j], x, y, boundary_width),
            None => forall|j: int|
                0 <= j < walls.len() ==> !#[trigger] circ_wall_covers(walls[j], x, y, boundary_width),
        },
    decreases walls.len(),
{
    if walls.len() > 0 {
        let rest = walls.drop_last();
        lemma_last_circ_cover(rest, x, y, boundary_width);
        assert forall|j: int| 0 <= j < rest.len() implies rest[j] == walls[j] by {}
    }
}

/// The cache entry a covering rectangular wall gives the cell: on the
/// wall's outline the cell reflects with its factor, elsewhere it absorbs,
/// and it is drawn with the wall's factor.
pub open spec fn rect_entry(w: RectWall, x: int, y: int, boundary_width: u32) -> WallCell {
    WallCell {
        is_wall: true,
        reflection_factor: if w.spec_on_edge(
            saturating_sub(x, boundary_width as int),
            saturating_sub(y, boundary_width as int),
        ) {
            w.reflection_factor
        } else {
            0
        },
        draw_reflection_factor: w.reflection_factor,
    }
}

proof fn lemma_rect_walls_cell_by_last_cover(
    cell: WallCell,
    walls: Seq<RectWall>,
    x: int,
    y: int,
    boundary_width: u32,
)
    ensures
        spec_rect_walls_cell(cell, walls, x, y, boundary_width) == match last_rect_cover(
            walls,
            x,
            y,
            boundary_width,
        ) {
            Some(k) => rect_entry(walls[k], x, y, boundary_width),
            None => cell,
        },
    decreases walls.len(),
{
    if walls.len() > 0 {
        lemma_rect_walls_cell_by_last_cover(cell, walls.drop_last(), x, y, boundary_width);
        reveal(rect_wall_covers);
        match last_rect_cover(walls.drop_last(), x, y, boundary_width) {
            Some(k) => {
                lemma_last_rect_cover(walls.drop_last(), x, y, boundary_width);
                assert(walls.drop_last()[k] == walls[k]);
            },
            None => {},
        }
    }
}

proof fn lemma_circ_walls_cell_by_last_cover(
    cell: WallCell,
    walls: Seq<CircWall>,
    x: int,
    y: int,
    boundary_width: u32,
)
    ensures
        spec_circ_walls_cell(cell, walls, x, y, boundary_width) == match last_circ_cover(
            walls,
            x,
            y,
            boundary_width,
        ) {
            Some(k) => WallCell {
                is_wall: true,
                reflection_factor: 0,
                draw_reflection_factor: walls[k].reflection_factor,
            },
            None => cell,
        },
    decreases walls.len(),
{
    if walls.len() > 0 {
        lemma_circ_walls_cell_by_last_cover(cell, walls.drop_last(), x, y, boundary_width);
        reveal(circ_wall_covers);
        match last_circ_cover(walls.drop_last(), x, y, boundary_width) {
            Some(k) => {
                lemma_last_circ_cover(walls.drop_last(), x, y, boundary_width);
                assert(walls.drop_last()[k] == walls[k]);
            },
            None => {},
        }
    }
}

/// Laying rectangular walls over a cache entry: the entry becomes a wall
/// exactly when some wall covers the cell; if none does, the entry is left
/// as it was; otherwise the last wall that covers the cell decides: on its
/// outline the cell reflects with the wall's factor, anywhere else it
/// absorbs (factor zero), and it is drawn with the wall's factor.
pub proof fn lemma_rect_walls_cell_last_cover_decides(
    cell: WallCell,
    walls: Seq<RectWall>,
    x: int,
    y: int,
    boundary_width: u32,
)
    ensures
        spec_rect_walls_cell(cell, walls, x, y, boundary_width).is_wall == (cell.is_wall
            || exists|k: int|
            0 <= k < walls.len() && #[trigger] rect_wall_covers(walls[k], x, y, boundary_width)),
        (forall|k: int|
            0 <= k < walls.len() ==> !#[trigger] rect_wall_covers(walls[k], x, y, boundary_width))
            ==> spec_rect_walls_cell(cell, walls, x, y, boundary_width) == cell,
        forall|k: int|
            0 <= k < walls.len() && #[trigger] rect_wall_covers(walls[k], x, y, boundary_width)
                && (forall|j: int|
                k < j < walls.len() ==> !#[trigger] rect_wall_covers(walls[j], x, y, boundary_width))
                ==> spec_rect_walls_cell(cell, walls, x, y, boundary_width) == rect_entry(
                walls[k],
                x,
                y,
                boundary_width,
            ),
{
    lemma_last_rect_cover(walls, x, y, boundary_width);
    lemma_rect_walls_cell_by_last_cover(cell, walls, x, y, boundary_width);
    match last_rect_cover(walls, x, y, boundary_width) {
        Some(m) => {
            assert forall|k: int|
                0 <= k < walls.len() && #[trigger] rect_wall_covers(walls[k], x, y, boundary_width)
                    && (forall|j: int|
                    k < j < walls.len() ==> !#[trigger] rect_wall_covers(
                        walls[j],
                        x,
                        y,
                        boundary_width,
                    )) implies k == m by {
                if k < m {
                    assert(rect_wall_covers(walls[m], x, y, boundary_width));
                }
                if m < k {
                    assert(rect_wall_covers(walls[k], x, y, boundary_width));
                }
            }
        },
        None => {},
    }
}

/// Laying circular walls over a cache entry: the entry becomes a wall
/// exactly when some wall covers the cell; if none does, the entry is left
/// as it was; otherwise the cell absorbs (factor zero) and is drawn with the
/// factor of the last wall that covers it.
pub proof fn lemma_circ_walls_cell_last_cover_decides(
    cell: WallCell,
    walls: Seq<CircWall>,
    x: int,
    y: int,
    boundary_width: u32,
)
    ensures
        spec_circ_walls_cell(cell, walls, x, y, boundary_width).is_wall == (cell.is_wall
            || exists|k: int|
            0 <= k < walls.len() && #[trigger] circ_wall_covers(walls[k], x, y, boundary_width)),
        (forall|k: int|
            0 <= k < walls.len() ==> !#[trigger] circ_wall_covers(walls[k], x, y, boundary_width))
            ==> spec_circ_walls_cell(cell, walls, x, y, boundary_width) == cell,
        forall|k: int|
            0 <= k < walls.len() && #[trigger] circ_wall_covers(walls[k], x, y, boundary_width)
                && (forall|j: int|
                k < j < walls.len() ==> !#[trigger] circ_wall_covers(walls[j], x, y, boundary_width))
                ==> spec_circ_walls_cell(cell, walls, x, y, boundary_width) == (WallCell {
                is_wall: true,
                reflection_factor: 0,
                draw_reflection_factor: walls[k].reflection_factor,
            }),
{
    lemma_last_circ_cover(walls, x, y, boundary_width);
    lemma_circ_walls_cell_by_last_cover(cell, walls, x, y, boundary_width);
    match last_circ_cover(walls, x, y, boundary_width) {
        Some(m) => {
            assert forall|k: int|
                0 <= k < walls.len() && #[trigger] circ_wall_covers(walls[k], x, y, boundary_width)
                    && (forall|j: int|
                    k < j < walls.len() ==> !#[trigger] circ_wall_covers(
                        walls[j],
                        x,
                        y,
                        boundary_width,
                    )) implies k == m by {
                if k < m {
                    assert(circ_wall_covers(walls[m], x, y, boundary_width));
                }
                if m < k {
                    assert(circ_wall_covers(walls[k], x, y, boundary_width));
                }
            }
        },
        None => {},
    }
}

/// The boundary cells a rectangular wall cuts off are covered by it in the
/// wall cache: over the full grid, a wall touching a border of the
/// simulated area lays itself over the strip of boundary beyond it.
pub proof fn lemma_cut_off_cells_are_covered(w: RectWall, x: int, y: int, boundary_width: u32)
    requires
        w.spec_boundary_delete(x, y, boundary_width as int),
    ensures
        rect_wall_covers(w, x, y, boundary_width),
{
    reveal(rect_wall_covers);
}

/// The tests of the wall `w` on the cell `(x, y)` stay within the range of
/// their integer types.
pub open spec fn rect_wall_fits(w: RectWall, boundary_width: u32) -> bool {
    &&& w.rect.max.x + boundary_width <= u32::MAX
    &&& w.rect.max.y + boundary_width <= u32::MAX
    &&& w.rect.min.x + boundary_width <= u32::MAX
    &&& w.rect.min.y + boundary_width <= u32::MAX
}

/// The tests of the wall `w` on the cell `(x, y)` stay within the range of
/// their integer types.
pub open spec fn circ_wall_fits(w: CircWall, x: int, y: int, boundary_width: u32) -> bool {
    let sx = saturating_sub(x, boundary_width as int);
    let sy = saturating_sub(y, boundary_width as int);
    &&& !w.is_hollow ==> w.fits_i32(sx, sy)
    &&& w.boundary_delete_fits(x, y, boundary_width as int)
}

/// Recomputes the wall cache entry of the cell at column `x` and row `y` of
/// the full grid from its previous entry.
pub fn update_wall_cell(
    cell: WallCell,
    x: u32,
    y: u32,
    rect_walls: &Vec<RectWall>,
    circ_walls: &Vec<CircWall>,
    boundary_width: u32,
) -> (c: WallCell)
    requires
        forall|k: int| 0 <= k < rect_walls.len() ==> rect_wall_fits(#[trigger] rect_walls@[k], boundary_width),
        forall|k: int|
            0 <= k < circ_walls.len() ==> circ_wall_fits(
                #[trigger] circ_walls@[k],
                x as int,
                y as int,
                boundary_width,
            ),
    ensures
        c == spec_wall_cell(cell, rect_walls@, circ_walls@, x as int, y as int, boundary_width),
{
    let sx = x.saturating_sub(boundary_width);
    let sy = y.saturating_sub(boundary_width);
    let mut c = WallCell { is_wall: false, ..cell };
    let ghost start = c;
    let mut k: usize = 0;
    while k < rect_walls.len()
        invariant
            k <= rect_walls.len(),
            sx == saturating_sub(x as int, boundary_width as int),
            sy == saturating_sub(y as int, boundary_width as int),
            forall|j: int| 0 <= j < rect_walls.len() ==> rect_wall_fits(#[trigger] rect_walls@[j], boundary_width),
            c == spec_rect_walls_cell(start, rect_walls@.take(k as int), x as int, y as int, boundary_width),
        decreases rect_walls.len() - k,
    {
        let wall = &rect_walls[k];
        if wall.edge_contains(sx, sy) {
            c.is_wall = true;
            c.reflection_factor = wall.get_reflection_factor();
            c.draw_reflection_factor = wall.get_reflection_factor();
        } else if wall.contains(sx, sy) || wall.boundary_delete(x, y, boundary_width) {
            c.is_wall = true;
            c.reflection_factor = 0;
            c.draw_reflection_factor = wall.get_reflection_factor();
        }
        assert(rect_walls@.take(k + 1).drop_last() =~= rect_walls@.take(k as int));
        k = k + 1;
    }
    assert(rect_walls@.take(rect_walls.len() as int) =~= rect_walls@);
    let ghost middle = c;
    let mut k: usize = 0;
    while k < circ_walls.len()
        invariant
            k <= circ_walls.len(),
            sx == saturating_sub(x as int, boundary_width as int),
            sy == saturating_sub(y as int, boundary_width as int),
            forall|j: int|
                0 <= j < circ_walls.len() ==> circ_wall_fits(
                    #[trigger] circ_walls@[j],
                    x as int,
                    y as int,
                    boundary_width,
                ),
            c == spec_circ_walls_cell(middle, circ_walls@.take(k as int), x as int, y as int, boundary_width),
        decreases circ_walls.len() - k,
    {
        let wall = &circ_walls[k];
        if wall.contains(sx, sy) || wall.boundary_delete(x, y, boundary_width) {
            c.is_wall = true;
            c.reflection_factor = 0;
            c.draw_reflection_factor = wall.get_reflection_factor();
        }
        assert(circ_walls@.take(k + 1).drop_last() =~= circ_walls@.take(k as int));
        k = k + 1;
    }
    assert(circ_walls@.take(circ_walls.len() as int) =~= circ_walls@);
    c
}

/// Recomputes the whole wall cache from the walls: every entry, read as the
/// cell at its row-major position in the full grid, becomes what the walls
/// make of it.
pub fn update_walls(
    wall_cache: &mut Vec<WallCell>,
    rect_walls: &Vec<RectWall>,
    circ_walls: &Vec<CircWall>,
    boundary_width: u32,
)
    requires
        old(wall_cache).len() <= u32::MAX + 1,
        grid_width(boundary_width) <= u32::MAX,
        forall|k: int| 0 <= k < rect_walls.len() ==> rect_wall_fits(#[trigger] rect_walls@[k], boundary_width),
        forall|k: int, i: int|
            0 <= k < circ_walls.len() && 0 <= i < old(wall_cache).len() ==> circ_wall_fits(
                #[trigger] circ_walls@[k],
                i % grid_width(boundary_width),
                #[trigger] (i / grid_width(boundary_width)),
                boundary_width,
            ),
    ensures
        final(wall_cache).len() == old(wall_cache).len(),
        forall|i: int|
            0 <= i < final(wall_cache).len() ==> #[trigger] final(wall_cache)@[i] == spec_wall_cell(
                old(wall_cache)@[i],
                rect_walls@,
                circ_walls@,
                i % grid_width(boundary_width),
                i / grid_width(boundary_width),
                boundary_width,
            ),
{
    let n = wall_cache.len();
    let mut i: usize = 0;
    while i < n
        invariant
            n == wall_cache.len(),
            n == old(wall_cache).len(),
            n <= u32::MAX + 1,
            i <= n,
            grid_width(boundary_width) <= u32::MAX,
            forall|k: int| 0 <= k < rect_walls.len() ==> rect_wall_fits(#[trigger] rect_walls@[k], boundary_width),
            forall|k: int, j: int|
                0 <= k < circ_walls.len() && 0 <= j < n ==> circ_wall_fits(
                    #[trigger] circ_walls@[k],
                    j % grid_width(boundary_width),
                    #[trigger] (j / grid_width(boundary_width)),
                    boundary_width,
                ),
            forall|j: int|
                0 <= j < i ==> #[trigger] wall_cache@[j] == spec_wall_cell(
                    old(wall_cache)@[j],
                    rect_walls@,
                    circ_walls@,
                    j % grid_width(boundary_width),
                    j / grid_width(boundary_width),
                    boundary_width,
                ),
            forall|j: int| i <= j < n ==> #[trigger] wall_cache@[j] == old(wall_cache)@[j],
        decreases n - i,
    {
        let (x, y) = index_to_coords(i as u32, boundary_width);
        assert forall|k: int| 0 <= k < circ_walls.len() implies circ_wall_fits(
            #[trigger] circ_walls@[k],
            x as int,
            y as int,
            boundary_width,
        ) by {
            assert(circ_wall_fits(circ_walls@[k], i as int % grid_width(boundary_width), i as int / grid_width(boundary_width), boundary_width));
        }
        let cell = update_wall_cell(wall_cache[i], x, y, rect_walls, circ_walls, boundary_width);
        wall_cache.set(i, cell);
        i = i + 1;
    }
}

/// The offsets `(ox, oy)` of one eighth of a circle's outline, produced oy the
/// midpoint circle algorithm from the state `(ox, oy, d)`: a step always moves
/// one column right, and one row down as well when the decision value `d` is
/// not negative, until the diagonal is passed.
pub open spec fn midpoint_steps(ox: int, oy: int, d: int) -> Seq<(int, int)>
    decreases oy - ox + 2,
{
    if ox > oy {
        Seq::empty()
    } else if d < 0 {
        seq![(ox, oy)] + midpoint_steps(ox + 1, oy, d + 2 * ox + 3)
    } else {
        seq![(ox, oy)] + midpoint_steps(ox + 1, oy - 1, d + 2 * (ox - oy) + 5)
    }
}

/// The offsets of the eighth of the outline of a circle of radius `r`.
pub open spec fn circle_octant(r: int) -> Seq<(int, int)> {
    midpoint_steps(0, r, 1 - r)
}

/// The cell at offset `(px, py)` from the simulated area's origin, as full-grid
/// coordinates, if it lies inside the full grid.
pub open spec fn spec_keep(px: int, py: int, boundary_width: u32) -> Seq<(u32, u32)> {
    let x = px + boundary_width;
    let y = py + boundary_width;
    if 0 <= x < grid_width(boundary_width) && 0 <= y < grid_height(boundary_width) {
        seq![(x as u32, y as u32)]
    } else {
        Seq::empty()
    }
}

/// The eight cells that the offset `(ox, oy)` stands for around the center
/// `(cx, cy)`, in the order in which they are visited, without those outside
/// the full grid.
pub open spec fn spec_eight(cx: int, cy: int, ox: int, oy: int, boundary_width: u32) -> Seq<
    (u32, u32),
> {
    spec_keep(cx + ox, cy + oy, boundary_width) + spec_keep(cx + ox, cy - oy, boundary_width)
        + spec_keep(cx - ox, cy + oy, boundary_width) + spec_keep(cx - ox, cy - oy, boundary_width)
        + spec_keep(cx + oy, cy + ox, boundary_width) + spec_keep(cx + oy, cy - ox, boundary_width)
        + spec_keep(cx - oy, cy + ox, boundary_width) + spec_keep(cx - oy, cy - ox, boundary_width)
}

/// The cells of the outline built from the octant offsets `steps`.
pub open spec fn spec_outline(cx: int, cy: int, steps: Seq<(int, int)>, boundary_width: u32) -> Seq<
    (u32, u32),
>
    decreases steps.len(),
{
    if steps.len() == 0 {
        Seq::empty()
    } else {
        spec_outline(cx, cy, steps.drop_last(), boundary_width) + spec_eight(
            cx,
            cy,
            steps.last().0,
            steps.last().1,
            boundary_width,
        )
    }
}

/// The integers of the walk stay within the range of `i32`.
pub open spec fn outline_fits(wall: CircWall, boundary_width: u32) -> bool {
    &&& wall.center.x + wall.radius + boundary_width <= i32::MAX
    &&& wall.center.y + wall.radius + boundary_width <= i32::MAX
    &&& 4 * wall.radius + 8 <= i32::MAX
    &&& grid_width(boundary_width) <= i32::MAX
    &&& grid_height(boundary_width) <= i32::MAX
}

fn push_if_inside(
    out: &mut Vec<(u32, u32)>,
    px: i32,
    py: i32,
    boundary_width: i32,
    full_width: u32,
    full_height: u32,
)
    requires
        0 <= boundary_width,
        full_width == grid_width(boundary_width as u32),
        full_height == grid_height(boundary_width as u32),
        full_width <= i32::MAX,
        full_height <= i32::MAX,
        i32::MIN <= px + boundary_width <= i32::MAX,
        i32::MIN <= py + boundary_width <= i32::MAX,
    ensures
        final(out)@ == old(out)@ + spec_keep(px as int, py as int, boundary_width as u32),
{
    let x = px + boundary_width;
    let y = py + boundary_width;
    if x >= 0 && (x as u32) < full_width && y >= 0 && (y as u32) < full_height {
        out.push((x as u32, y as u32));
    }
}

fn push_eight(
    out: &mut Vec<(u32, u32)>,
    cx: i32,
    cy: i32,
    b_x: i32,
    b_y: i32,
    boundary_width: i32,
    full_width: u32,
    full_height: u32,
)
    requires
        0 <= boundary_width,
        full_width == grid_width(boundary_width as u32),
        full_height == grid_height(boundary_width as u32),
        full_width <= i32::MAX,
        full_height <= i32::MAX,
        0 <= cx,
        0 <= cy,
        0 <= b_x,
        0 <= b_y,
        cx + b_x + boundary_width <= i32::MAX,
        cx + b_y + boundary_width <= i32::MAX,
        cy + b_x + boundary_width <= i32::MAX,
        cy + b_y + boundary_width <= i32::MAX,
    ensures
        final(out)@ == old(out)@ + spec_eight(
            cx as int,
            cy as int,
            b_x as int,
            b_y as int,
            boundary_width as u32,
        ),
{
    let ghost start = out@;
    push_if_inside(out, cx + b_x, cy + b_y, boundary_width, full_width, full_height);
    push_if_inside(out, cx + b_x, cy - b_y, boundary_width, full_width, full_height);
    push_if_inside(out, cx - b_x, cy + b_y, boundary_width, full_width, full_height);
    push_if_inside(out, cx - b_x, cy - b_y, boundary_width, full_width, full_height);
    push_if_inside(out, cx + b_y, cy + b_x, boundary_width, full_width, full_height);
    push_if_inside(out, cx + b_y, cy - b_x, boundary_width, full_width, full_height);
    push_if_inside(out, cx - b_y, cy + b_x, boundary_width, full_width, full_height);
    push_if_inside(out, cx - b_y, cy - b_x, boundary_width, full_width, full_height);
    assert(out@ =~= start + spec_eight(
        cx as int,
        cy as int,
        b_x as int,
        b_y as int,
        boundary_width as u32,
    ));
}

/// The cells of the full grid on the outline of a circular wall, found with
/// the midpoint circle algorithm and mirrored into all eight octants; cells
/// outside the full grid are left out.
pub fn circle_outline(wall: &CircWall, boundary_width: u32) -> (cells: Vec<(u32, u32)>)
    requires
        outline_fits(*wall, boundary_width),
    ensures
        cells@ == spec_outline(
            wall.center.x as int,
            wall.center.y as int,
            circle_octant(wall.radius as int),
            boundary_width,
        ),
{
    let ghost r_int = wall.radius as int;
    let ghost cxi = wall.center.x as int;
    let ghost cyi = wall.center.y as int;
    let r = wall.radius as i32;
    let cx = wall.center.x as i32;
    let cy = wall.center.y as i32;
    let bw = boundary_width as i32;
    let full_width = SIMULATION_WIDTH + 2 * boundary_width;
    let full_height = SIMULATION_HEIGHT + 2 * boundary_width;

    let mut out: Vec<(u32, u32)> = Vec::new();
    let mut b_x: i32 = 0;
    let mut b_y: i32 = r;
    let mut d: i32 = 1 - r;
    let ghost mut done: Seq<(int, int)> = Seq::empty();
    assert(done + midpoint_steps(b_x as int, b_y as int, d as int) =~= circle_octant(r_int));
    while b_x <= b_y
        invariant
            outline_fits(*wall, boundary_width),
            r == r_int,
            cx == cxi,
            cy == cyi,
            r_int == wall.radius,
            cxi == wall.center.x,
            cyi == wall.center.y,
            bw == boundary_width,
            full_width == grid_width(boundary_width),
            full_height == grid_height(boundary_width),
            0 <= b_x,
            b_y <= r,
            b_x <= b_y + 2,
            -2 <= b_y,
            d == (b_x + 1) * (b_x + 1) + b_y * b_y - r * r - b_y,
            b_x <= b_y ==> -b_y <= b_x * b_x + b_y * b_y - r * r <= b_y,
            done + midpoint_steps(b_x as int, b_y as int, d as int) == circle_octant(r_int),
            out@ == spec_outline(cxi, cyi, done, boundary_width),
        decreases b_y - b_x + 2,
    {
        proof {
            midpoint_close_step(b_x as int, b_y as int, d as int, r as int);
        }
        push_eight(&mut out, cx, cy, b_x, b_y, bw, full_width, full_height);

        let ghost step = (b_x as int, b_y as int);
        let ghost rest = midpoint_steps(b_x as int, b_y as int, d as int);
        proof {
            assert(done.push(step).drop_last() =~= done);
            assert(out@ =~= spec_outline(cxi, cyi, done.push(step), boundary_width));
        }
        if d < 0 {
            d = d + 2 * b_x + 3;
            b_x = b_x + 1;
        } else {
            d = d + 2 * (b_x - b_y) + 5;
            b_x = b_x + 1;
            b_y = b_y - 1;
        }
        proof {
            assert(rest == seq![step] + midpoint_steps(b_x as int, b_y as int, d as int));
            assert(done.push(step) + midpoint_steps(b_x as int, b_y as int, d as int) =~= done
                + rest);
            done = done.push(step);
        }
    }
    out
}

/// One step of the midpoint walk keeps the decision value tied to the next
/// candidate cell, and keeps the visited cell within `oy` of the circle.
pub(crate) proof fn midpoint_close_step(ox: int, oy: int, d: int, r: int)
    requires
        0 <= ox <= oy,
        d == (ox + 1) * (ox + 1) + oy * oy - r * r - oy,
        -oy <= ox * ox + oy * oy - r * r <= oy,
    ensures
        1 - 2 * oy <= d <= 2 * ox + 1,
        d < 0 ==> {
            let nd = d + 2 * ox + 3;
            &&& nd == (ox + 2) * (ox + 2) + oy * oy - r * r - oy
            &&& ox + 1 <= oy ==> -oy <= (ox + 1) * (ox + 1) + oy * oy - r * r <= oy
        },
        d >= 0 ==> {
            let nd = d + 2 * (ox - oy) + 5;
            &&& nd == (ox + 2) * (ox + 2) + (oy - 1) * (oy - 1) - r * r - (oy - 1)
            &&& ox + 1 <= oy - 1 ==> -(oy - 1) <= (ox + 1) * (ox + 1) + (oy - 1) * (oy - 1) - r
                * r <= oy - 1
        },
{
    assert((ox + 1) * (ox + 1) == ox * ox + 2 * ox + 1) by (nonlinear_arith);
    assert((ox + 2) * (ox + 2) == ox * ox + 4 * ox + 4) by (nonlinear_arith);
    assert((oy - 1) * (oy - 1) == oy * oy - 2 * oy + 1) by (nonlinear_arith);
}

/// Every offset of a circle's octant lies between the axis and the diagonal
/// and within `oy` of the circle: `|bx² + by² - r²| <= oy`.
pub proof fn lemma_circle_octant_close(r: int)
    requires
        0 <= r,
    ensures
        forall|i: int|
            0 <= i < circle_octant(r).len() ==> {
                let (ox, oy) = #[trigger] circle_octant(r)[i];
                &&& 0 <= ox <= oy <= r
                &&& -oy <= ox * ox + oy * oy - r * r <= oy
            },
{
    lemma_midpoint_steps_close(0, r, 1 - r, r);
}

/// The octant of a circle of radius `r` starts at the top of the circle, so
/// the outline reaches exactly `r` cells away from the center in each of the
/// four directions: a circle of radius `r` is `2r + 1` cells wide and tall
/// (radius 1 gives a three cell wide circle).
pub proof fn lemma_circle_octant_extent(r: int)
    requires
        0 <= r,
    ensures
        circle_octant(r).len() > 0,
        circle_octant(r)[0] == (0int, r),
        forall|i: int|
            0 <= i < circle_octant(r).len() ==> {
                let (ox, oy) = #[trigger] circle_octant(r)[i];
                0 <= ox <= oy <= r
            },
{
    lemma_circle_octant_close(r);
    assert(circle_octant(r) == seq![(0int, r)] + if 1 - r < 0 {
        midpoint_steps(1, r, 1 - r + 3)
    } else {
        midpoint_steps(1, r - 1, 1 - r - 2 * r + 5)
    });
}

proof fn lemma_midpoint_steps_close(ox: int, oy: int, d: int, r: int)
    requires
        0 <= ox,
        oy <= r,
        d == (ox + 1) * (ox + 1) + oy * oy - r * r - oy,
        ox <= oy ==> -oy <= ox * ox + oy * oy - r * r <= oy,
    ensures
        forall|i: int|
            0 <= i < midpoint_steps(ox, oy, d).len() ==> {
                let (px, py) = #[trigger] midpoint_steps(ox, oy, d)[i];
                &&& 0 <= px <= py <= r
                &&& -py <= px * px + py * py - r * r <= py
            },
    decreases oy - ox + 2,
{
    if ox <= oy {
        midpoint_close_step(ox, oy, d, r);
        let rest = if d < 0 {
            midpoint_steps(ox + 1, oy, d + 2 * ox + 3)
        } else {
            midpoint_steps(ox + 1, oy - 1, d + 2 * (ox - oy) + 5)
        };
        if d < 0 {
            lemma_midpoint_steps_close(ox + 1, oy, d + 2 * ox + 3, r);
        } else {
            lemma_midpoint_steps_close(ox + 1, oy - 1, d + 2 * (ox - oy) + 5, r);
        }
        assert(midpoint_steps(ox, oy, d) == seq![(ox, oy)] + rest);
        assert forall|i: int| 0 <= i < midpoint_steps(ox, oy, d).len() implies {
            let (px, py) = #[trigger] midpoint_steps(ox, oy, d)[i];
            &&& 0 <= px <= py <= r
            &&& -py <= px * px + py * py - r * r <= py
        } by {
            if i > 0 {
                assert(midpoint_steps(ox, oy, d)[i] == rest[i - 1]);
            }
        }
    }
}

/// Marks the cell at column `x` and row `y` of the full grid as a wall that
/// reflects with the factor whose bit pattern is `factor`.
pub fn mark_wall_cell(wall_cache: &mut Vec<WallCell>, x: u32, y: u32, boundary_width: u32, factor: u32)
    requires
        grid_width(boundary_width) <= u32::MAX,
        spec_coords_to_index(x as int, y as int, boundary_width) < old(wall_cache).len(),
        spec_coords_to_index(x as int, y as int, boundary_width) <= u32::MAX,
    ensures
        final(wall_cache)@ == old(wall_cache)@.update(
            spec_coords_to_index(x as int, y as int, boundary_width),
            WallCell { is_wall: true, reflection_factor: factor, draw_reflection_factor: factor },
        ),
{
    let index = crate::math::transformations::coords_to_index(x, y, boundary_width);
    wall_cache.set(index, WallCell { is_wall: true, reflection_factor: factor, draw_reflection_factor: factor });
}

} // verus!

//! The overlay drawn over walls that are being moved or resized.

use vstd::prelude::*;

use crate::components::wall::{CircWall, RectWall};
use crate::math::constants::{SIMULATION_HEIGHT, SIMULATION_WIDTH};
use crate::math::transformations::{spec_u32_map_range, u32_map_range};
use crate::simulation::grid::{
    circle_octant, lemma_circle_octant_close, midpoint_close_step, midpoint_steps,
};

verus! {

/// A pixel of the simulation image.
#[derive(Clone, Copy, Debug, PartialEq, Eq, Structural)]
pub struct Pixel {
    pub r: u8,
    pub g: u8,
    pub b: u8,
    pub a: u8,
}

/// A pixel under a grabbed wall: its colors squeezed into a lighter, bluish
/// range, fully opaque.
pub open spec fn spec_shade(p: Pixel) -> Pixel {
    Pixel {
        r: spec_u32_map_range(0, 255, 80, 200, p.r as int) as u8,
        g: spec_u32_map_range(0, 255, 80, 200, p.g as int) as u8,
        b: spec_u32_map_range(0, 255, 80, 255, p.b as int) as u8,
        a: 255,
    }
}

/// A pixel under the outline band of a grabbed hollow circular wall: its
/// red squeezed into a reddish range, green and blue fixed, fully opaque.
pub open spec fn spec_band_shade(p: Pixel) -> Pixel {
    Pixel {
        r: spec_u32_map_range(0, 255, 100, 175, p.r as int) as u8,
        g: spec_u32_map_range(0, 255, 80, 80, p.g as int) as u8,
        b: spec_u32_map_range(0, 255, 80, 80, p.b as int) as u8,
        a: 255,
    }
}

/// Shading works channel by channel: each color of the shaded pixel
/// depends on the same color of the pixel alone, rises with it, runs from
/// 80 (for 0) to 200 for red and green and to 255 for blue (for 255), and
/// the shaded pixel is opaque.
pub proof fn lemma_shade_by_channel(p: Pixel, q: Pixel)
    ensures
        p.r == q.r ==> spec_shade(p).r == spec_shade(q).r,
        p.g == q.g ==> spec_shade(p).g == spec_shade(q).g,
        p.b == q.b ==> spec_shade(p).b == spec_shade(q).b,
        p.r <= q.r ==> spec_shade(p).r <= spec_shade(q).r,
        p.g <= q.g ==> spec_shade(p).g <= spec_shade(q).g,
        p.b <= q.b ==> spec_shade(p).b <= spec_shade(q).b,
        p.r == 0 ==> spec_shade(p).r == 80,
        p.g == 0 ==> spec_shade(p).g == 80,
        p.b == 0 ==> spec_shade(p).b == 80,
        p.r == 255 ==> spec_shade(p).r == 200,
        p.g == 255 ==> spec_shade(p).g == 200,
        p.b == 255 ==> spec_shade(p).b == 255,
        80 <= spec_shade(p).r <= 200,
        80 <= spec_shade(p).g <= 200,
        80 <= spec_shade(p).b <= 255,
        spec_shade(p).a == 255,
{
    lemma_map_channel(p.r, q.r, 120);
    lemma_map_channel(p.g, q.g, 120);
    lemma_map_channel(p.b, q.b, 175);
}

/// The map of `[0, 255]` onto `[80, 80 + span]` rises with its argument and
/// stays in its range.
proof fn lemma_map_channel(u: u8, v: u8, span: int)
    requires
        0 <= span <= 175,
    ensures
        0 <= u * span / 255 <= span,
        u <= v ==> u * span / 255 <= v * span / 255,
        u == 255 ==> u * span / 255 == span,
        u == 0 ==> u * span / 255 == 0,
{
    assert(0 <= u * span <= 255 * span) by (nonlinear_arith)
        requires
            0 <= u <= 255,
            0 <= span,
    ;
    assert(u * span / 255 <= span) by (nonlinear_arith)
        requires
            0 <= u * span <= 255 * span,
    ;
    if u <= v {
        assert(u * span <= v * span) by (nonlinear_arith)
            requires
                u <= v,
                0 <= span,
        ;
        vstd::arithmetic::div_mod::lemma_div_is_ordered(u * span, v * span, 255);
    }
    if u == 255 {
        assert(u * span == 255 * span);
    }
}

/// A band pixel of a hollow wall depends on the red of the pixel alone: its
/// red rises from 100 to 175 with it; green and blue are 80, and it is
/// opaque.
pub proof fn lemma_band_shade_by_channel(p: Pixel, q: Pixel)
    ensures
        p.r == q.r ==> spec_band_shade(p) == spec_band_shade(q),
        p.r <= q.r ==> spec_band_shade(p).r <= spec_band_shade(q).r,
        p.r == 0 ==> spec_band_shade(p).r == 100,
        p.r == 255 ==> spec_band_shade(p).r == 175,
        100 <= spec_band_shade(p).r <= 175,
        spec_band_shade(p).g == 80,
        spec_band_shade(p).b == 80,
        spec_band_shade(p).a == 255,
{
    lemma_map_channel(p.r, q.r, 75);
    lemma_map_channel(p.g, q.g, 0);
    lemma_map_channel(p.b, q.b, 0);
}

/// A pixel shaded `k` times over.
pub open spec fn shade_times(p: Pixel, k: nat) -> Pixel
    decreases k,
{
    if k == 0 {
        p
    } else {
        spec_shade(shade_times(p, (k - 1) as nat))
    }
}

/// How many of the first `n` rectangular walls cover the cell `(x, y)`.
pub open spec fn rect_cover_count(walls: Seq<RectWall>, n: int, x: int, y: int) -> nat
    decreases n,
{
    if n <= 0 {
        0
    } else if walls[n - 1].spec_inside(x, y) {
        rect_cover_count(walls, n - 1, x, y) + 1
    } else {
        rect_cover_count(walls, n - 1, x, y)
    }
}

/// How many of the first `n` circular walls cover the cell `(x, y)` with
/// their filled disc.
pub open spec fn circ_cover_count(walls: Seq<CircWall>, n: int, x: int, y: int) -> nat
    decreases n,
{
    if n <= 0 {
        0
    } else if walls[n - 1].spec_contains(x, y) {
        circ_cover_count(walls, n - 1, x, y) + 1
    } else {
        circ_cover_count(walls, n - 1, x, y)
    }
}

/// The count of rectangular walls covering a cell is zero exactly when
/// none of them covers it, and at most the number of walls.
pub proof fn lemma_rect_cover_count(walls: Seq<RectWall>, n: int, x: int, y: int)
    requires
        0 <= n <= walls.len(),
    ensures
        rect_cover_count(walls, n, x, y) <= n,
        (rect_cover_count(walls, n, x, y) == 0) == (forall|k: int|
            0 <= k < n ==> !(#[trigger] walls[k]).spec_inside(x, y)),
    decreases n,
{
    if n > 0 {
        lemma_rect_cover_count(walls, n - 1, x, y);
    }
}

/// The count of circular walls covering a cell with their disc is zero
/// exactly when none of them does.
pub proof fn lemma_circ_cover_count(walls: Seq<CircWall>, n: int, x: int, y: int)
    requires
        0 <= n <= walls.len(),
    ensures
        circ_cover_count(walls, n, x, y) <= n,
        (circ_cover_count(walls, n, x, y) == 0) == (forall|k: int|
            0 <= k < n ==> !(#[trigger] walls[k]).spec_contains(x, y)),
    decreases n,
{
    if n > 0 {
        lemma_circ_cover_count(walls, n - 1, x, y);
    }
}

/// The overlay leaves every pixel that no grabbed wall covers as it was, and
/// shades once a pixel that exactly one rectangular wall covers (and no
/// filled circle).
pub proof fn lemma_overlay_touches_only_covered_pixels(
    frame: Seq<Pixel>,
    rects: Seq<RectWall>,
    circs: Seq<CircWall>,
    i: int,
)
    requires
        0 <= i < frame.len(),
    ensures
        ({
            let x = i % SIMULATION_WIDTH as int;
            let y = i / SIMULATION_WIDTH as int;
            &&& spec_overlay(frame, rects, circs).len() == frame.len()
            &&& (forall|k: int| 0 <= k < rects.len() ==> !(#[trigger] rects[k]).spec_inside(x, y))
                && (forall|k: int|
                0 <= k < circs.len() ==> !(#[trigger] circs[k]).spec_contains(x, y))
                ==> spec_overlay(frame, rects, circs)[i] == frame[i]
            &&& rects.len() == 1 && rects[0].spec_inside(x, y) && (forall|k: int|
                0 <= k < circs.len() ==> !(#[trigger] circs[k]).spec_contains(x, y))
                ==> spec_overlay(frame, rects, circs)[i] == spec_shade(frame[i])
        }),
{
    let x = i % SIMULATION_WIDTH as int;
    let y = i / SIMULATION_WIDTH as int;
    lemma_rect_cover_count(rects, rects.len() as int, x, y);
    lemma_circ_cover_count(circs, circs.len() as int, x, y);
    if rects.len() == 1 && rects[0].spec_inside(x, y) {
        assert(rect_cover_count(rects, 0, x, y) == 0);
        assert(rect_cover_count(rects, 1, x, y) == 1);
        assert(shade_times(frame[i], 1) == spec_shade(shade_times(frame[i], 0)));
    }
}

/// The band of an outline point runs inward in a straight line of five
/// cells that ends at the point when it lies below or right of the center
/// and starts at it when it lies above or left of it: for the lower and
/// upper octants the cells lie in the point's column, one row apart, for the
/// right and left ones in its row, one column apart.
pub proof fn lemma_band_is_a_straight_strip(p: OutlinePoint, j: int)
    requires
        0 <= j < 4,
        p.octant < 8,
    ensures
        p.octant < 4 ==> band_index(p, j + 1) == band_index(p, j) + SIMULATION_WIDTH,
        p.octant >= 4 ==> band_index(p, j + 1) == band_index(p, j) + 1,
        (p.octant == 0 || p.octant == 2) ==> band_index(p, 4) == p.x + p.y * SIMULATION_WIDTH,
        (p.octant == 1 || p.octant == 3) ==> band_index(p, 0) == p.x + p.y * SIMULATION_WIDTH,
        (p.octant == 4 || p.octant == 5) ==> band_index(p, 4) == p.x + p.y * SIMULATION_WIDTH,
        (p.octant == 6 || p.octant == 7) ==> band_index(p, 0) == p.x + p.y * SIMULATION_WIDTH,
{
}

/// The image after the overlay: each pixel is shaded once for every
/// rectangular wall and every filled circular wall that covers its cell.
pub open spec fn spec_overlay(frame: Seq<Pixel>, rects: Seq<RectWall>, circs: Seq<CircWall>) -> Seq<
    Pixel,
> {
    Seq::new(
        frame.len(),
        |i: int|
            {
                let x = i % SIMULATION_WIDTH as int;
                let y = i / SIMULATION_WIDTH as int;
                shade_times(
                    frame[i],
                    rect_cover_count(rects, rects.len() as int, x, y) + circ_cover_count(
                        circs,
                        circs.len() as int,
                        x,
                        y,
                    ),
                )
            },
    )
}

/// The walls that an overlay is drawn for: rectangular walls inside the
/// simulated area, filled circular walls whose disc test fits in 32-bit
/// integers at every cell of the simulated area.
pub open spec fn overlay_fits(rects: Seq<RectWall>, circs: Seq<CircWall>) -> bool {
    &&& forall|i: int| 0 <= i < rects.len() ==> (#[trigger] rects[i]).in_simulation()
    &&& forall|i: int, x: int, y: int|
        0 <= i < circs.len() && 0 <= x < SIMULATION_WIDTH && 0 <= y < SIMULATION_HEIGHT
            ==> circs[i].is_hollow || #[trigger] circs[i].fits_i32(x, y)
}

/// Shades one pixel.
pub fn shade(p: Pixel) -> (q: Pixel)
    ensures
        q == spec_shade(p),
{
    assert(p.r * 120 <= 255 * 120 && p.g * 120 <= 255 * 120 && p.b * 175 <= 255 * 175)
        by (nonlinear_arith);
    assert(p.r * 120 / 255 <= 120 && p.g * 120 / 255 <= 120 && p.b * 175 / 255 <= 175)
        by (nonlinear_arith)
        requires
            p.r * 120 <= 255 * 120,
            p.g * 120 <= 255 * 120,
            p.b * 175 <= 255 * 175,
    ;
    let r = u32_map_range(0, 255, 80, 200, p.r as u32);
    let g = u32_map_range(0, 255, 80, 200, p.g as u32);
    let b = u32_map_range(0, 255, 80, 255, p.b as u32);
    Pixel { r: r as u8, g: g as u8, b: b as u8, a: 255 }
}

/// Shades one pixel of a hollow wall's outline band.
pub fn band_shade(p: Pixel) -> (q: Pixel)
    ensures
        q == spec_band_shade(p),
{
    assert(p.r * 75 <= 255 * 75) by (nonlinear_arith);
    assert(p.r * 75 / 255 <= 75) by (nonlinear_arith)
        requires
            p.r * 75 <= 255 * 75,
    ;
    let r = u32_map_range(0, 255, 100, 175, p.r as u32);
    let g = u32_map_range(0, 255, 80, 80, p.g as u32);
    let b = u32_map_range(0, 255, 80, 80, p.b as u32);
    Pixel { r: r as u8, g: g as u8, b: b as u8, a: 255 }
}

fn covering_walls(rects: &Vec<RectWall>, circs: &Vec<CircWall>, x: u32, y: u32) -> (k: usize)
    requires
        overlay_fits(rects@, circs@),
        rects.len() + circs.len() <= usize::MAX,
        x < SIMULATION_WIDTH,
        y < SIMULATION_HEIGHT,
    ensures
        k == rect_cover_count(rects@, rects.len() as int, x as int, y as int) + circ_cover_count(
            circs@,
            circs.len() as int,
            x as int,
            y as int,
        ),
{
    let mut k: usize = 0;
    let mut i: usize = 0;
    while i < rects.len()
        invariant
            i <= rects.len(),
            k == rect_cover_count(rects@, i as int, x as int, y as int),
            k <= i,
        decreases rects.len() - i,
    {
        if rects[i].contains_pointer(x, y) {
            k = k + 1;
        }
        i = i + 1;
    }
    let mut j: usize = 0;
    let mut c: usize = 0;
    while j < circs.len()
        invariant
            j <= circs.len(),
            overlay_fits(rects@, circs@),
            x < SIMULATION_WIDTH,
            y < SIMULATION_HEIGHT,
            c == circ_cover_count(circs@, j as int, x as int, y as int),
            c <= j,
        decreases circs.len() - j,
    {
        let w = circs[j];
        assert(w.is_hollow || w.fits_i32(x as int, y as int)) by {
            assert(circs@[j as int] == w);
            assert(circs@[j as int].is_hollow || circs@[j as int].fits_i32(x as int, y as int));
        }
        if w.contains(x, y) {
            c = c + 1;
        }
        j = j + 1;
    }
    assert(k + c <= rects.len() + circs.len());
    k + c
}

/// Draws the overlay of the walls that are being moved or resized onto the
/// simulation image, as `spec_overlay` describes; hollow circular walls get
/// their outline band drawn separately.
pub fn overlay_pixels(frame: &mut Vec<Pixel>, rect_walls: &Vec<RectWall>, circ_walls: &Vec<CircWall>)
    requires
        old(frame).len() == SIMULATION_WIDTH * SIMULATION_HEIGHT,
        overlay_fits(rect_walls@, circ_walls@),
        rect_walls.len() + circ_walls.len() <= usize::MAX,
    ensures
        final(frame)@ == spec_overlay(old(frame)@, rect_walls@, circ_walls@),
{
    let ghost orig = frame@;
    let n = frame.len();
    let mut i: usize = 0;
    while i < n
        invariant
            n == frame.len(),
            n == SIMULATION_WIDTH * SIMULATION_HEIGHT,
            orig.len() == n,
            i <= n,
            overlay_fits(rect_walls@, circ_walls@),
            rect_walls.len() + circ_walls.len() <= usize::MAX,
            forall|j: int| 0 <= j < i ==> #[trigger] frame@[j] == spec_overlay(orig, rect_walls@, circ_walls@)[j],
            forall|j: int| i <= j < n ==> #[trigger] frame@[j] == orig[j],
        decreases n - i,
    {
        let x = (i % 400) as u32;
        let y = (i / 400) as u32;
        let k = covering_walls(rect_walls, circ_walls, x, y);
        let mut p = frame[i];
        let mut t: usize = 0;
        while t < k
            invariant
                t <= k,
                p == shade_times(orig[i as int], t as nat),
            decreases k - t,
        {
            p = shade(p);
            t = t + 1;
        }
        frame.set(i, p);
        i = i + 1;
    }
    assert(frame@ =~= spec_overlay(orig, rect_walls@, circ_walls@));
}

/// A cell of a hollow circular wall's outline inside the simulated area,
/// with the eighth of the circle (`0..8`, in the order in which the midpoint
/// walk mirrors each offset) that it belongs to.
#[derive(Clone, Copy, Debug, PartialEq, Eq, Structural)]
pub struct OutlinePoint {
    pub x: u32,
    pub y: u32,
    pub octant: u8,
}

/// The point `(px, py)` of octant `k`, if it lies in the simulated area.
pub open spec fn keep_in_image(px: int, py: int, k: u8) -> Seq<OutlinePoint> {
    if 0 <= px < SIMULATION_WIDTH && 0 <= py < SIMULATION_HEIGHT {
        seq![OutlinePoint { x: px as u32, y: py as u32, octant: k }]
    } else {
        Seq::empty()
    }
}

/// The eight mirrored points of the offset `(ox, oy)` around `(cx, cy)`.
pub open spec fn eight_in_image(cx: int, cy: int, ox: int, oy: int) -> Seq<OutlinePoint> {
    keep_in_image(cx + ox, cy + oy, 0) + keep_in_image(cx + ox, cy - oy, 1) + keep_in_image(
        cx - ox,
        cy + oy,
        2,
    ) + keep_in_image(cx - ox, cy - oy, 3) + keep_in_image(cx + oy, cy + ox, 4) + keep_in_image(
        cx + oy,
        cy - ox,
        5,
    ) + keep_in_image(cx - oy, cy + ox, 6) + keep_in_image(cx - oy, cy - ox, 7)
}

/// The outline points built from the octant offsets `steps`.
pub open spec fn outline_in_image(cx: int, cy: int, steps: Seq<(int, int)>) -> Seq<OutlinePoint>
    decreases steps.len(),
{
    if steps.len() == 0 {
        Seq::empty()
    } else {
        outline_in_image(cx, cy, steps.drop_last()) + eight_in_image(
            cx,
            cy,
            steps.last().0,
            steps.last().1,
        )
    }
}

/// Which side of the center an outline point of octant `k` lies on: the
/// lower octants (0, 2) below or level with it, the upper ones (1, 3) above
/// or level, the right ones (4, 5) right of or level with it, the left ones
/// (6, 7) left of or level with it.
pub open spec fn faces_center(p: OutlinePoint, cx: int, cy: int) -> bool {
    &&& p.octant < 8
    &&& (p.octant == 0 || p.octant == 2) ==> p.y >= cy
    &&& (p.octant == 1 || p.octant == 3) ==> p.y <= cy
    &&& (p.octant == 4 || p.octant == 5) ==> p.x >= cx
    &&& (p.octant == 6 || p.octant == 7) ==> p.x <= cx
}

proof fn lemma_outline_faces_center(cx: int, cy: int, steps: Seq<(int, int)>)
    requires
        forall|i: int| 0 <= i < steps.len() ==> 0 <= (#[trigger] steps[i]).0 && 0 <= steps[i].1,
    ensures
        forall|i: int|
            0 <= i < outline_in_image(cx, cy, steps).len() ==> faces_center(
                #[trigger] outline_in_image(cx, cy, steps)[i],
                cx,
                cy,
            ),
    decreases steps.len(),
{
    if steps.len() > 0 {
        let rest = steps.drop_last();
        assert forall|i: int| 0 <= i < rest.len() implies 0 <= (#[trigger] rest[i]).0 && 0
            <= rest[i].1 by {
            assert(rest[i] == steps[i]);
        }
        lemma_outline_faces_center(cx, cy, rest);
        let (ox, oy) = steps.last();
        assert(0 <= ox && 0 <= oy) by {
            assert(steps.last() == steps[steps.len() - 1]);
        }
        let a = outline_in_image(cx, cy, rest);
        let e = eight_in_image(cx, cy, ox, oy);
        assert forall|i: int| 0 <= i < e.len() implies faces_center(#[trigger] e[i], cx, cy) by {
            let k0 = keep_in_image(cx + ox, cy + oy, 0);
            let k1 = keep_in_image(cx + ox, cy - oy, 1);
            let k2 = keep_in_image(cx - ox, cy + oy, 2);
            let k3 = keep_in_image(cx - ox, cy - oy, 3);
            let k4 = keep_in_image(cx + oy, cy + ox, 4);
            let k5 = keep_in_image(cx + oy, cy - ox, 5);
            let k6 = keep_in_image(cx - oy, cy + ox, 6);
            let k7 = keep_in_image(cx - oy, cy - ox, 7);
            assert(e == k0 + k1 + k2 + k3 + k4 + k5 + k6 + k7);
            let all = seq![k0, k1, k2, k3, k4, k5, k6, k7];
            assert forall|m: int, j: int| 0 <= m < 8 && 0 <= j < all[m].len() implies faces_center(
                #[trigger] all[m][j],
                cx,
                cy,
            ) by {}
        }
        assert forall|i: int|
            0 <= i < outline_in_image(cx, cy, steps).len() implies faces_center(
            #[trigger] outline_in_image(cx, cy, steps)[i],
            cx,
            cy,
        ) by {
            assert(outline_in_image(cx, cy, steps) == a + e);
            if i < a.len() {
                assert((a + e)[i] == a[i]);
            } else {
                assert((a + e)[i] == e[i - a.len()]);
            }
        }
    }
}

/// Every point of a hollow wall's outline lies on the side of the center
/// that its octant names, so that its band (see
/// `lemma_band_is_a_straight_strip`) runs from the outline toward the
/// center.
pub proof fn lemma_hollow_outline_faces_center(wall: CircWall)
    ensures
        forall|i: int|
            0 <= i < outline_in_image(
                wall.center.x as int,
                wall.center.y as int,
                circle_octant(wall.radius as int),
            ).len() ==> faces_center(
                #[trigger] outline_in_image(
                    wall.center.x as int,
                    wall.center.y as int,
                    circle_octant(wall.radius as int),
                )[i],
                wall.center.x as int,
                wall.center.y as int,
            ),
{
    lemma_circle_octant_close(wall.radius as int);
    let steps = circle_octant(wall.radius as int);
    assert forall|i: int| 0 <= i < steps.len() implies 0 <= (#[trigger] steps[i]).0 && 0
        <= steps[i].1 by {
        let (ox, oy) = steps[i];
    }
    lemma_outline_faces_center(wall.center.x as int, wall.center.y as int, steps);
}

fn push_in_image(out: &mut Vec<OutlinePoint>, px: i32, py: i32, k: u8)
    ensures
        final(out)@ == old(out)@ + keep_in_image(px as int, py as int, k),
{
    if px >= 0 && px < 400 && py >= 0 && py < 400 {
        out.push(OutlinePoint { x: px as u32, y: py as u32, octant: k });
    }
}

fn push_eight_in_image(out: &mut Vec<OutlinePoint>, cx: i32, cy: i32, b_x: i32, b_y: i32)
    requires
        0 <= cx,
        0 <= cy,
        0 <= b_x,
        0 <= b_y,
        cx + b_x <= i32::MAX,
        cx + b_y <= i32::MAX,
        cy + b_x <= i32::MAX,
        cy + b_y <= i32::MAX,
    ensures
        final(out)@ == old(out)@ + eight_in_image(cx as int, cy as int, b_x as int, b_y as int),
{
    let ghost start = out@;
    push_in_image(out, cx + b_x, cy + b_y, 0);
    push_in_image(out, cx + b_x, cy - b_y, 1);
    push_in_image(out, cx - b_x, cy + b_y, 2);
    push_in_image(out, cx - b_x, cy - b_y, 3);
    push_in_image(out, cx + b_y, cy + b_x, 4);
    push_in_image(out, cx + b_y, cy - b_x, 5);
    push_in_image(out, cx - b_y, cy + b_x, 6);
    push_in_image(out, cx - b_y, cy - b_x, 7);
    assert(out@ =~= start + eight_in_image(cx as int, cy as int, b_x as int, b_y as int));
}

/// The points of a hollow circular wall's outline that lie in the simulated
/// area, with their octants, in the order of the midpoint walk.
pub fn hollow_outline(wall: &CircWall) -> (points: Vec<OutlinePoint>)
    requires
        wall.center.x + wall.radius <= i32::MAX,
        wall.center.y + wall.radius <= i32::MAX,
        4 * wall.radius + 8 <= i32::MAX,
    ensures
        points@ == outline_in_image(
            wall.center.x as int,
            wall.center.y as int,
            circle_octant(wall.radius as int),
        ),
{
    let ghost r_int = wall.radius as int;
    let ghost cxi = wall.center.x as int;
    let ghost cyi = wall.center.y as int;
    let r = wall.radius as i32;
    let cx = wall.center.x as i32;
    let cy = wall.center.y as i32;
    let mut out: Vec<OutlinePoint> = Vec::new();
    let mut b_x: i32 = 0;
    let mut b_y: i32 = r;
    let mut d: i32 = 1 - r;
    let ghost mut done: Seq<(int, int)> = Seq::empty();
    assert(done + midpoint_steps(b_x as int, b_y as int, d as int) =~= circle_octant(r_int));
    while b_x <= b_y
        invariant
            wall.center.x + wall.radius <= i32::MAX,
            wall.center.y + wall.radius <= i32::MAX,
            4 * wall.radius + 8 <= i32::MAX,
            r == r_int,
            cx == cxi,
            cy == cyi,
            r_int == wall.radius,
            cxi == wall.center.x,
            cyi == wall.center.y,
            0 <= b_x,
            b_y <= r,
            b_x <= b_y + 2,
            -2 <= b_y,
            d == (b_x + 1) * (b_x + 1) + b_y * b_y - r * r - b_y,
            b_x <= b_y ==> -b_y <= b_x * b_x + b_y * b_y - r * r <= b_y,
            done + midpoint_steps(b_x as int, b_y as int, d as int) == circle_octant(r_int),
            out@ == outline_in_image(cxi, cyi, done),
        decreases b_y - b_x + 2,
    {
        proof {
            midpoint_close_step(b_x as int, b_y as int, d as int, r as int);
        }
        push_eight_in_image(&mut out, cx, cy, b_x, b_y);

        let ghost step = (b_x as int, b_y as int);
        let ghost rest = midpoint_steps(b_x as int, b_y as int, d as int);
        proof {
            assert(done.push(step).drop_last() =~= done);
            assert(out@ =~= outline_in_image(cxi, cyi, done.push(step)));
        }
        if d < 0 {
            d = d + 2 * b_x + 3;
            b_x = b_x + 1;
        } else {
            d = d + 2 * (b_x - b_y) + 5;
            b_x = b_x + 1;
            b_y = b_y - 1;
        }
        proof {
            assert(rest == seq![step] + midpoint_steps(b_x as int, b_y as int, d as int));
            assert(done.push(step) + midpoint_steps(b_x as int, b_y as int, d as int) =~= done
                + rest);
            done = done.push(step);
        }
    }
    out
}

/// The offset of the `j`-th cell (`0..5`) of the band drawn inward from an
/// outline point of octant `k`: upward below the center, downward above
/// it, leftward right of it and rightward left of it.
pub open spec fn band_offset(k: u8, j: int) -> (int, int) {
    if k == 0 || k == 2 {
        (0, j - 4)
    } else if k == 1 || k == 3 {
        (0, j)
    } else if k == 4 || k == 5 {
        (j - 4, 0)
    } else {
        (j, 0)
    }
}

/// The image index of the `j`-th band cell of `p`.
pub open spec fn band_index(p: OutlinePoint, j: int) -> int {
    (p.x + band_offset(p.octant, j).0) + (p.y + band_offset(p.octant, j).1) * SIMULATION_WIDTH
}

/// Every band cell of `p` has nonnegative coordinates and an index inside
/// the image.
pub open spec fn band_fits(p: OutlinePoint) -> bool {
    forall|j: int|
        0 <= j < 5 ==> p.x + (#[trigger] band_offset(p.octant, j)).0 >= 0 && p.y + band_offset(
            p.octant,
            j,
        ).1 >= 0 && band_index(p, j) < SIMULATION_WIDTH * SIMULATION_HEIGHT
}

/// The image indices of the band of five cells that a hollow wall's
/// outline point is drawn with, in drawing order; `None` when a cell of the
/// band falls off the image.
pub fn band_cells(p: OutlinePoint) -> (cells: Option<Vec<usize>>)
    requires
        p.x < SIMULATION_WIDTH,
        p.y < SIMULATION_HEIGHT,
    ensures
        cells is Some <==> band_fits(p),
        cells matches Some(c) ==> c@.len() == 5 && forall|j: int|
            0 <= j < 5 ==> c@[j] == band_index(p, j),
{
    let mut cells: Vec<usize> = Vec::new();
    let mut j: u32 = 0;
    while j < 5
        invariant
            j <= 5,
            p.x < SIMULATION_WIDTH,
            p.y < SIMULATION_HEIGHT,
            cells@.len() == j,
            forall|i: int|
                0 <= i < j ==> p.x + (#[trigger] band_offset(p.octant, i)).0 >= 0 && p.y
                    + band_offset(p.octant, i).1 >= 0 && band_index(p, i) < SIMULATION_WIDTH
                    * SIMULATION_HEIGHT,
            forall|i: int| 0 <= i < j ==> cells@[i] == band_index(p, i),
        decreases 5 - j,
    {
        let k = p.octant;
        let (dx, dy): (i64, i64) = if k == 0 || k == 2 {
            (0, j as i64 - 4)
        } else if k == 1 || k == 3 {
            (0, j as i64)
        } else if k == 4 || k == 5 {
            (j as i64 - 4, 0)
        } else {
            (j as i64, 0)
        };
        assert(band_offset(k, j as int) == (dx as int, dy as int));
        let x = p.x as i64 + dx;
        let y = p.y as i64 + dy;
        if x < 0 || y < 0 || x + y * 400 >= 160000 {
            assert(!band_fits(p)) by {
                let jj = j as int;
                assert(0 <= jj < 5);
                assert(band_offset(p.octant, jj) == (dx as int, dy as int));
            }
            return None;
        }
        let index = x + y * 400;
        cells.push(index as usize);
        j = j + 1;
    }
    Some(cells)
}

} // verus!

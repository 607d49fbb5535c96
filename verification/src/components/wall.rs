use vstd::prelude::*;

use crate::math::constants::{SIMULATION_HEIGHT, SIMULATION_WIDTH};
use crate::math::rect::{UVec2, WRect};

verus! {

/// The handle by which a wall is being resized.
#[derive(Clone, Copy, Debug, PartialEq, Eq, Structural)]
pub enum WResize {
    Menu,
    Draw,
    TopLeft,
    TopRight,
    BottomRight,
    BottomLeft,
    Radius,
}

/// What the simulation knows about one cell of the full grid: whether a wall
/// covers it, the factor with which the cell reflects incoming pulses, and the
/// factor it is drawn with. Both factors are `f32` values held as their
/// IEEE-754 bit patterns (`f32::to_bits`); the library never computes with them.
#[derive(Clone, Copy, Debug, PartialEq, Eq, Structural)]
pub struct WallCell {
    pub is_wall: bool,
    pub reflection_factor: u32,
    pub draw_reflection_factor: u32,
}

impl Default for WallCell {
    fn default() -> (c: Self)
        ensures
            c == (WallCell { is_wall: false, reflection_factor: 0, draw_reflection_factor: 0 }),
    {
        WallCell { is_wall: false, reflection_factor: 0, draw_reflection_factor: 0 }
    }
}

/// How far a wall moves along one axis when its center is dragged by
/// `offset` cells: never past the first cell, and never past the last cell
/// (`limit - 1`), of the simulated area.
pub open spec fn axis_shift(offset: int, min: int, max: int, limit: int) -> int {
    if offset < 0 {
        if -offset > min {
            -min
        } else {
            offset
        }
    } else if offset > 0 {
        if offset > limit - max - 1 {
            limit - max - 1
        } else {
            offset
        }
    } else {
        0
    }
}

/// A pointer coordinate as the wall's move arithmetic reads it: as a signed
/// 32-bit integer, so that coordinates past `i32::MAX` wrap around to
/// negative ones.
pub open spec fn as_i32(v: u32) -> int {
    if v > i32::MAX {
        v - 0x1_0000_0000
    } else {
        v as int
    }
}

/// The smaller of two integers.
pub open spec fn min_int(a: int, b: int) -> int {
    if a <= b {
        a
    } else {
        b
    }
}

/// The larger of two integers.
pub open spec fn max_int(a: int, b: int) -> int {
    if a <= b {
        b
    } else {
        a
    }
}

/// A rectangular wall.
#[derive(Clone, Copy, Debug, PartialEq, Eq, Structural)]
pub struct RectWall {
    // between 0 and SIM_WIDTH
    // between 0 and SIM_HEIGHT
    pub rect: WRect,
    pub is_hollow: bool,
    /// The reflection factor, an `f32` held as its bit pattern.
    pub reflection_factor: u32,
    pub id: usize,
    /// The corner that stays in place while the wall is being drawn.
    pub draw_pin: UVec2,
}

impl RectWall {
    /// The wall lies inside the simulated area and its corners are in order.
    pub open spec fn in_simulation(self) -> bool {
        &&& self.rect.is_ordered()
        &&& self.rect.max.x < SIMULATION_WIDTH
        &&& self.rect.max.y < SIMULATION_HEIGHT
    }

    /// The cell `(x, y)` lies inside the wall's rectangle (edges included).
    pub open spec fn spec_inside(self, x: int, y: int) -> bool {
        self.rect.min.x <= x <= self.rect.max.x && self.rect.min.y <= y <= self.rect.max.y
    }

    /// The cell `(x, y)` lies on the outline of the wall's rectangle.
    pub open spec fn spec_on_edge(self, x: int, y: int) -> bool {
        ||| (x == self.rect.min.x || x == self.rect.max.x) && (self.rect.min.y <= y
            <= self.rect.max.y)
        ||| (y == self.rect.min.y || y == self.rect.max.y) && (self.rect.min.x <= x
            <= self.rect.max.x)
    }

    /// The cell `(x, y)` is covered by the wall: by its outline when the wall is
    /// hollow, by its whole rectangle otherwise.
    pub open spec fn spec_contains(self, x: int, y: int) -> bool {
        if self.is_hollow {
            self.spec_on_edge(x, y)
        } else {
            self.spec_inside(x, y)
        }
    }

    /// The cell `(x, y)` of the full grid (boundary included) lies in the
    /// absorbing boundary straight beyond a side of the wall that touches the
    /// border of the simulated area.
    pub open spec fn spec_boundary_delete(self, x: int, y: int, boundary_width: int) -> bool {
        let r = self.rect;
        ||| r.min.x == 0 && x < r.min.x + boundary_width && r.min.y + boundary_width <= y
            <= r.max.y + boundary_width
        ||| r.max.x == SIMULATION_WIDTH - 1 && x > r.max.x + boundary_width && r.min.y
            + boundary_width <= y <= r.max.y + boundary_width
        ||| r.min.y == 0 && y < r.min.y + boundary_width && r.min.x + boundary_width <= x
            <= r.max.x + boundary_width
        ||| r.max.y == SIMULATION_HEIGHT - 1 && y > r.max.y + boundary_width && r.min.x
            + boundary_width <= x <= r.max.x + boundary_width
    }

    /// The rectangle after the handle `resize_type` has been dragged to `(x, y)`.
    pub open spec fn spec_resized(self, resize_type: WResize, x: int, y: int) -> WRect {
        let r = self.rect;
        match resize_type {
            WResize::TopLeft => WRect {
                min: UVec2 {
                    x: min_int(x, r.max.x - 1) as u32,
                    y: min_int(y, r.max.y - 1) as u32,
                },
                max: r.max,
            },
            WResize::TopRight => WRect {
                min: UVec2 { x: r.min.x, y: min_int(y, r.max.y - 1) as u32 },
                max: UVec2 { x: max_int(x, r.min.x + 1) as u32, y: r.max.y },
            },
            WResize::BottomRight => WRect {
                min: r.min,
                max: UVec2 {
                    x: max_int(x, r.min.x + 1) as u32,
                    y: max_int(y, r.min.y + 1) as u32,
                },
            },
            WResize::BottomLeft => WRect {
                min: UVec2 { x: min_int(x, r.max.x - 1) as u32, y: r.min.y },
                max: UVec2 { x: r.max.x, y: max_int(y, r.min.y + 1) as u32 },
            },
            WResize::Draw => WRect {
                min: UVec2 {
                    x: min_int(x, self.draw_pin.x as int) as u32,
                    y: min_int(y, self.draw_pin.y as int) as u32,
                },
                max: UVec2 {
                    x: max_int(x, self.draw_pin.x as int) as u32,
                    y: max_int(y, self.draw_pin.y as int) as u32,
                },
            },
            _ => r,
        }
    }

    /// The handle `resize_type` does not move a corner past zero or past the
    /// largest coordinate.
    pub open spec fn can_resize(self, resize_type: WResize) -> bool {
        let r = self.rect;
        match resize_type {
            WResize::TopLeft => r.max.x >= 1 && r.max.y >= 1,
            WResize::TopRight => r.min.x < u32::MAX && r.max.y >= 1,
            WResize::BottomRight => r.min.x < u32::MAX && r.min.y < u32::MAX,
            WResize::BottomLeft => r.max.x >= 1 && r.min.y < u32::MAX,
            WResize::Radius => false,
            _ => true,
        }
    }

    /// The point at which the handle `resize_type` is drawn.
    pub open spec fn spec_resize_point(self, resize_type: WResize) -> UVec2 {
        match resize_type {
            WResize::Draw => self.rect.max,
            WResize::TopLeft => self.rect.min,
            WResize::TopRight => UVec2 { x: self.rect.max.x, y: self.rect.min.y },
            WResize::BottomRight => self.rect.max,
            WResize::BottomLeft => UVec2 { x: self.rect.min.x, y: self.rect.max.y },
            _ => self.rect.spec_center(),
        }
    }

    pub fn new(
        x0: u32,
        y0: u32,
        x1: u32,
        y1: u32,
        is_hollow: bool,
        reflection_factor: u32,
        id: usize,
    ) -> (w: Self)
        ensures
            w.rect == (WRect { min: UVec2 { x: x0, y: y0 }, max: UVec2 { x: x1, y: y1 } }),
            w.is_hollow == is_hollow,
            w.reflection_factor == reflection_factor,
            w.id == id,
            w.draw_pin == (UVec2 { x: x0, y: y0 }),
    {
        RectWall {
            rect: WRect::new(x0, y0, x1, y1),
            is_hollow,
            reflection_factor,
            id,
            draw_pin: UVec2 { x: x0, y: y0 },
        }
    }

    pub fn get_center(&self) -> (c: UVec2)
        requires
            self.rect.min.x + self.rect.max.x <= u32::MAX,
            self.rect.min.y + self.rect.max.y <= u32::MAX,
        ensures
            c == self.rect.spec_center(),
    {
        self.rect.center()
    }

    pub fn get_resize_point(&self, resize_type: &WResize) -> (p: UVec2)
        requires
            *resize_type != WResize::Radius,
            *resize_type == WResize::Menu ==> self.rect.min.x + self.rect.max.x <= u32::MAX
                && self.rect.min.y + self.rect.max.y <= u32::MAX,
        ensures
            p == self.spec_resize_point(*resize_type),
    {
        match resize_type {
            WResize::Draw => self.rect.max,
            WResize::TopLeft => self.rect.min,
            WResize::TopRight => UVec2::new(self.rect.max.x, self.rect.min.y),
            WResize::BottomRight => self.rect.max,
            WResize::BottomLeft => UVec2::new(self.rect.min.x, self.rect.max.y),
            WResize::Radius => self.rect.center(),
            WResize::Menu => self.rect.center(),
        }
    }

    pub fn contains(&self, x: u32, y: u32) -> (b: bool)
        ensures
            b == self.spec_contains(x as int, y as int),
    {
        if self.is_hollow {
            return self.edge_contains(x, y);
        }
        x >= self.rect.min.x && x <= self.rect.max.x && y >= self.rect.min.y && y
            <= self.rect.max.y
    }

    pub fn edge_contains(&self, x: u32, y: u32) -> (b: bool)
        ensures
            b == self.spec_on_edge(x as int, y as int),
    {
        ((x == self.rect.min.x || x == self.rect.max.x) && (y >= self.rect.min.y && y
            <= self.rect.max.y)) || ((y == self.rect.min.y || y == self.rect.max.y) && (x
            >= self.rect.min.x && x <= self.rect.max.x))
    }

    /// If width or height equals one, the wall can be deleted
    pub fn is_deletable(&self) -> (b: bool)
        requires
            self.rect.is_ordered(),
            self.rect.max.x - self.rect.min.x < u32::MAX,
            self.rect.max.y - self.rect.min.y < u32::MAX,
        ensures
            b == (self.rect.min.x == self.rect.max.x || self.rect.min.y == self.rect.max.y),
    {
        self.rect.width() == 1 || self.rect.height() == 1
    }

    /// Moves the wall so that its center lands on `(x, y)`, as far as the
    /// simulated area allows; the wall keeps its size.
    pub fn set_center(&mut self, x: u32, y: u32)
        requires
            old(self).in_simulation(),
            // the signed offset from the center to the pointer, and its
            // negation, fit in 32 bits
            as_i32(x) - old(self).rect.spec_center().x > i32::MIN,
            as_i32(y) - old(self).rect.spec_center().y > i32::MIN,
        ensures
            ({
                let c = old(self).rect.spec_center();
                let sx = axis_shift(
                    as_i32(x) - c.x,
                    old(self).rect.min.x as int,
                    old(self).rect.max.x as int,
                    SIMULATION_WIDTH as int,
                );
                let sy = axis_shift(
                    as_i32(y) - c.y,
                    old(self).rect.min.y as int,
                    old(self).rect.max.y as int,
                    SIMULATION_HEIGHT as int,
                );
                &&& final(self).rect.min.x == old(self).rect.min.x + sx
                &&& final(self).rect.max.x == old(self).rect.max.x + sx
                &&& final(self).rect.min.y == old(self).rect.min.y + sy
                &&& final(self).rect.max.y == old(self).rect.max.y + sy
            }),
            final(self).is_hollow == old(self).is_hollow,
            final(self).reflection_factor == old(self).reflection_factor,
            final(self).id == old(self).id,
            final(self).draw_pin == old(self).draw_pin,
            // the wall stays inside the simulated area and keeps its size
            final(self).in_simulation(),
            final(self).rect.max.x - final(self).rect.min.x == old(self).rect.max.x - old(self).rect.min.x,
            final(self).rect.max.y - final(self).rect.min.y == old(self).rect.max.y - old(self).rect.min.y,
            // where the simulated area leaves room, the center lands on the pointer
            ({
                let c = old(self).rect.spec_center();
                let r = old(self).rect;
                (x < c.x ==> c.x - x <= r.min.x) && (x > c.x ==> x - c.x <= SIMULATION_WIDTH
                    - r.max.x - 1) ==> final(self).rect.spec_center().x == x
            }),
            ({
                let c = old(self).rect.spec_center();
                let r = old(self).rect;
                (y < c.y ==> c.y - y <= r.min.y) && (y > c.y ==> y - c.y <= SIMULATION_HEIGHT
                    - r.max.y - 1) ==> final(self).rect.spec_center().y == y
            }),
    {
        let current_center = self.rect.center();
        let xi: i32 = x as i32;
        let yi: i32 = y as i32;
        assert(xi as int == as_i32(x)) by {
            assert(x > 0x7fff_ffff ==> (x as i32) as int == x - 0x1_0000_0000) by (bit_vector);
            assert(x <= 0x7fff_ffff ==> (x as i32) as int == x) by (bit_vector);
        }
        assert(yi as int == as_i32(y)) by {
            assert(y > 0x7fff_ffff ==> (y as i32) as int == y - 0x1_0000_0000) by (bit_vector);
            assert(y <= 0x7fff_ffff ==> (y as i32) as int == y) by (bit_vector);
        }

        let mut x_offset: i32 = xi - current_center.x as i32;
        let mut y_offset: i32 = yi - current_center.y as i32;

        if x_offset < 0 {
            x_offset = if -x_offset > self.rect.min.x as i32 {
                self.rect.min.x as i32
            } else {
                x_offset
            };
            // `x_offset` now holds either the (positive) distance to the left
            // border or the (negative) requested offset
            let shift: u32 = if x_offset < 0 {
                (-x_offset) as u32
            } else {
                x_offset as u32
            };
            self.rect.min.x = self.rect.min.x - shift;
            self.rect.max.x = self.rect.max.x - shift;
        } else if x_offset > 0 {
            // minus 1 because wall-bounds are inclusive
            x_offset = if x_offset > SIMULATION_WIDTH as i32 - self.rect.max.x as i32 - 1 {
                SIMULATION_WIDTH as i32 - self.rect.max.x as i32 - 1
            } else {
                x_offset
            };
            self.rect.min.x = self.rect.min.x + x_offset as u32;
            self.rect.max.x = self.rect.max.x + x_offset as u32;
        }
        if y_offset < 0 {
            y_offset = if -y_offset > self.rect.min.y as i32 {
                self.rect.min.y as i32
            } else {
                y_offset
            };
            let shift: u32 = if y_offset < 0 {
                (-y_offset) as u32
            } else {
                y_offset as u32
            };
            self.rect.min.y = self.rect.min.y - shift;
            self.rect.max.y = self.rect.max.y - shift;
        } else if y_offset > 0 {
            // minus 1 because wall-bounds are inclusive
            y_offset = if y_offset > SIMULATION_HEIGHT as i32 - self.rect.max.y as i32 - 1 {
                SIMULATION_HEIGHT as i32 - self.rect.max.y as i32 - 1
            } else {
                y_offset
            };
            self.rect.min.y = self.rect.min.y + y_offset as u32;
            self.rect.max.y = self.rect.max.y + y_offset as u32;
        }
    }

    /// The reflection factor's bit pattern.
    pub fn get_reflection_factor(&self) -> (f: u32)
        ensures
            f == self.reflection_factor,
    {
        self.reflection_factor
    }

    /// Drags the handle `resize_type` to `(x, y)`. A corner never passes the
    /// opposite corner: the wall stays at least two cells wide and tall.
    pub fn resize(&mut self, resize_type: &WResize, x: u32, y: u32)
        requires
            old(self).can_resize(*resize_type),
        ensures
            final(self).rect == old(self).spec_resized(*resize_type, x as int, y as int),
            // a dragged corner never reaches the opposite corner
            (*resize_type == WResize::TopLeft || *resize_type == WResize::TopRight
                || *resize_type == WResize::BottomRight || *resize_type == WResize::BottomLeft)
                ==> final(self).rect.min.x < final(self).rect.max.x && final(self).rect.min.y
                < final(self).rect.max.y,
            // a wall being drawn spans from its pin to the pointer
            *resize_type == WResize::Draw ==> final(self).rect.is_ordered() && final(self).spec_inside(x as int, y as int) && final(self).spec_inside(
                old(self).draw_pin.x as int,
                old(self).draw_pin.y as int,
            ),
            final(self).is_hollow == old(self).is_hollow,
            final(self).reflection_factor == old(self).reflection_factor,
            final(self).id == old(self).id,
            final(self).draw_pin == old(self).draw_pin,
    {
        let mut x = x;
        let mut y = y;
        match resize_type {
            WResize::TopLeft => {
                if x > self.rect.max.x - 1 {
                    x = self.rect.max.x - 1;
                }
                if y > self.rect.max.y - 1 {
                    y = self.rect.max.y - 1;
                }

                self.rect.min.x = x;
                self.rect.min.y = y;
            },
            WResize::TopRight => {
                if x < self.rect.min.x + 1 {
                    x = self.rect.min.x + 1;
                }
                if y > self.rect.max.y - 1 {
                    y = self.rect.max.y - 1;
                }

                self.rect.max.x = x;
                self.rect.min.y = y;
            },
            WResize::BottomRight => {
                // make sure x and y are never less than min
                // wall is always 2 pixel tall and wide
                if x < self.rect.min.x + 1 {
                    x = self.rect.min.x + 1;
                }
                if y < self.rect.min.y + 1 {
                    y = self.rect.min.y + 1;
                }

                self.rect.max.x = x;
                self.rect.max.y = y;
            },
            WResize::BottomLeft => {
                if x > self.rect.max.x - 1 {
                    x = self.rect.max.x - 1;
                }
                if y < self.rect.min.y + 1 {
                    y = self.rect.min.y + 1;
                }

                self.rect.min.x = x;
                self.rect.max.y = y;
            },
            WResize::Draw => {
                if x >= self.draw_pin.x {
                    self.rect.min.x = self.draw_pin.x;
                    self.rect.max.x = x;
                } else {
                    self.rect.min.x = x;
                    self.rect.max.x = self.draw_pin.x;
                }

                if y >= self.draw_pin.y {
                    self.rect.min.y = self.draw_pin.y;
                    self.rect.max.y = y;
                } else {
                    self.rect.min.y = y;
                    self.rect.max.y = self.draw_pin.y;
                }
            },
            WResize::Menu => {},
            WResize::Radius => {},
        }
    }

    // x and y: 0..SIM_WIDTH/HEIGHT + 2 * B_W
    pub fn boundary_delete(&self, x: u32, y: u32, boundary_width: u32) -> (b: bool)
        requires
            self.rect.max.x + boundary_width <= u32::MAX,
            self.rect.max.y + boundary_width <= u32::MAX,
            self.rect.min.x + boundary_width <= u32::MAX,
            self.rect.min.y + boundary_width <= u32::MAX,
        ensures
            b == self.spec_boundary_delete(x as int, y as int, boundary_width as int),
    {
        if self.rect.min.x == 0 && x < self.rect.min.x + boundary_width && y >= self.rect.min.y
            + boundary_width && y <= self.rect.max.y + boundary_width {
            return true;
        }
        if self.rect.max.x == SIMULATION_WIDTH - 1 && x > self.rect.max.x + boundary_width && y
            >= self.rect.min.y + boundary_width && y <= self.rect.max.y + boundary_width {
            return true;
        }
        if self.rect.min.y == 0 && y < self.rect.min.y + boundary_width && x >= self.rect.min.x
            + boundary_width && x <= self.rect.max.x + boundary_width {
            return true;
        }
        if self.rect.max.y == SIMULATION_HEIGHT - 1 && y > self.rect.max.y + boundary_width && x
            >= self.rect.min.x + boundary_width && x <= self.rect.max.x + boundary_width {
            return true;
        }
        false
    }

    pub fn contains_pointer(&self, x: u32, y: u32) -> (b: bool)
        ensures
            b == self.spec_inside(x as int, y as int),
    {
        self.rect.min.x <= x && x <= self.rect.max.x && self.rect.min.y <= y && y
            <= self.rect.max.y
    }
}

/// A corner of a rectangular wall as the outline menu edits it.
#[derive(Clone, Copy, Debug, PartialEq, Eq, Structural)]
pub enum MenuCorner {
    /// the top left corner, `rect.min`
    TopLeft,
    /// the bottom right corner, `rect.max`
    BottomRight,
}

/// A coordinate typed into the outline menu, kept in `0..=limit - 1`.
pub open spec fn menu_clamp(value: int, limit: int) -> int {
    if value > limit - 1 {
        limit - 1
    } else {
        value
    }
}

/// The rectangle after one coordinate of a corner has been typed into the
/// outline menu: the value is kept in the simulated area, and a top left
/// coordinate stays at least one below the bottom right one (and the other
/// way round).
pub open spec fn spec_menu_edited(r: WRect, corner: MenuCorner, horizontal: bool, value: int) -> WRect {
    match corner {
        MenuCorner::TopLeft => if horizontal {
            WRect {
                min: UVec2 {
                    x: min_int(menu_clamp(value, SIMULATION_WIDTH as int), r.max.x - 1) as u32,
                    y: r.min.y,
                },
                max: r.max,
            }
        } else {
            WRect {
                min: UVec2 {
                    x: r.min.x,
                    y: min_int(menu_clamp(value, SIMULATION_HEIGHT as int), r.max.y - 1) as u32,
                },
                max: r.max,
            }
        },
        MenuCorner::BottomRight => if horizontal {
            WRect {
                min: r.min,
                max: UVec2 {
                    x: max_int(menu_clamp(value, SIMULATION_WIDTH as int), r.min.x + 1) as u32,
                    y: r.max.y,
                },
            }
        } else {
            WRect {
                min: r.min,
                max: UVec2 {
                    x: r.max.x,
                    y: max_int(menu_clamp(value, SIMULATION_HEIGHT as int), r.min.y + 1) as u32,
                },
            }
        },
    }
}

/// An outline edit keeps a wall's corners apart and in the simulated area:
/// the edited coordinate is the typed value when that lies in the area and
/// keeps the top left corner before the bottom right one, it is pulled back
/// otherwise, and the other corner is left alone.
pub proof fn lemma_menu_edit_keeps_corners_apart(r: WRect, v: int)
    requires
        0 <= v,
        r.min.x < r.max.x < SIMULATION_WIDTH,
        r.min.y < r.max.y < SIMULATION_HEIGHT,
    ensures
        ({
            let e = spec_menu_edited(r, MenuCorner::TopLeft, true, v);
            &&& e.min.x < e.max.x && e.max == r.max && e.min.y == r.min.y
            &&& (v < r.max.x ==> e.min.x == v)
        }),
        ({
            let e = spec_menu_edited(r, MenuCorner::TopLeft, false, v);
            &&& e.min.y < e.max.y && e.max == r.max && e.min.x == r.min.x
            &&& (v < r.max.y ==> e.min.y == v)
        }),
        ({
            let e = spec_menu_edited(r, MenuCorner::BottomRight, true, v);
            &&& e.min.x < e.max.x < SIMULATION_WIDTH && e.min == r.min && e.max.y == r.max.y
            &&& (r.min.x < v < SIMULATION_WIDTH ==> e.max.x == v)
        }),
        ({
            let e = spec_menu_edited(r, MenuCorner::BottomRight, false, v);
            &&& e.min.y < e.max.y < SIMULATION_HEIGHT && e.min == r.min && e.max.x == r.max.x
            &&& (r.min.y < v < SIMULATION_HEIGHT ==> e.max.y == v)
        }),
{
}

impl RectWall {
    /// Applies one coordinate typed into the outline menu: `horizontal`
    /// selects x over y, `corner` the corner it belongs to.
    pub fn menu_edit(&mut self, corner: MenuCorner, horizontal: bool, value: u32)
        requires
            corner == MenuCorner::TopLeft && horizontal ==> old(self).rect.max.x >= 1,
            corner == MenuCorner::TopLeft && !horizontal ==> old(self).rect.max.y >= 1,
            corner == MenuCorner::BottomRight && horizontal ==> old(self).rect.min.x < u32::MAX,
            corner == MenuCorner::BottomRight && !horizontal ==> old(self).rect.min.y < u32::MAX,
        ensures
            final(self).rect == spec_menu_edited(old(self).rect, corner, horizontal, value as int),
            final(self).is_hollow == old(self).is_hollow,
            final(self).reflection_factor == old(self).reflection_factor,
            final(self).id == old(self).id,
            final(self).draw_pin == old(self).draw_pin,
    {
        let limit = if horizontal {
            SIMULATION_WIDTH
        } else {
            SIMULATION_HEIGHT
        };
        let v = if value > limit - 1 {
            limit - 1
        } else {
            value
        };
        match corner {
            MenuCorner::TopLeft => if horizontal {
                self.rect.min.x = v;
                if self.rect.min.x > self.rect.max.x - 1 {
                    self.rect.min.x = self.rect.max.x - 1;
                }
            } else {
                self.rect.min.y = v;
                if self.rect.min.y > self.rect.max.y - 1 {
                    self.rect.min.y = self.rect.max.y - 1;
                }
            },
            MenuCorner::BottomRight => if horizontal {
                self.rect.max.x = v;
                if self.rect.max.x < self.rect.min.x + 1 {
                    self.rect.max.x = self.rect.min.x + 1;
                }
            } else {
                self.rect.max.y = v;
                if self.rect.max.y < self.rect.min.y + 1 {
                    self.rect.max.y = self.rect.min.y + 1;
                }
            },
        }
    }
}

/// The wall mirrored top to bottom within the simulated area.
pub open spec fn mirrored_vertically(w: RectWall) -> RectWall {
    RectWall {
        rect: WRect {
            min: UVec2 { x: w.rect.min.x, y: (SIMULATION_HEIGHT - 1 - w.rect.max.y) as u32 },
            max: UVec2 { x: w.rect.max.x, y: (SIMULATION_HEIGHT - 1 - w.rect.min.y) as u32 },
        },
        ..w
    }
}

/// The wall mirrored left to right within the simulated area.
pub open spec fn mirrored_horizontally(w: RectWall) -> RectWall {
    RectWall {
        rect: WRect {
            min: UVec2 { x: (SIMULATION_WIDTH - 1 - w.rect.max.x) as u32, y: w.rect.min.y },
            max: UVec2 { x: (SIMULATION_WIDTH - 1 - w.rect.min.x) as u32, y: w.rect.max.y },
        },
        ..w
    }
}

/// The boundary cells a wall cuts off do not depend on which border it
/// touches: mirroring the wall top to bottom mirrors, row for row, the full
/// grid's cells it cuts off (the bottom border behaves as the top one, the
/// left and right ones stay as they are).
pub proof fn lemma_boundary_delete_mirrors_vertically(w: RectWall, x: int, y: int, boundary_width: int)
    requires
        w.in_simulation(),
        0 <= boundary_width,
    ensures
        w.spec_boundary_delete(x, y, boundary_width) == mirrored_vertically(w).spec_boundary_delete(
            x,
            SIMULATION_HEIGHT + 2 * boundary_width - 1 - y,
            boundary_width,
        ),
{
}

/// Mirroring the wall left to right mirrors, column for column, the full
/// grid's cells it cuts off (the right border behaves as the left one).
pub proof fn lemma_boundary_delete_mirrors_horizontally(
    w: RectWall,
    x: int,
    y: int,
    boundary_width: int,
)
    requires
        w.in_simulation(),
        0 <= boundary_width,
    ensures
        w.spec_boundary_delete(x, y, boundary_width) == mirrored_horizontally(
            w,
        ).spec_boundary_delete(SIMULATION_WIDTH + 2 * boundary_width - 1 - x, y, boundary_width),
{
}

/// A wall touching a border of the simulated area cuts off the strip of
/// the absorbing boundary straight beyond it: every full-grid cell past that
/// border (`x`, `y` counted in the full grid, boundary included) that lies
/// level with the wall. A wall that touches no border cuts off nothing, and
/// no cell of the simulated area itself is ever cut off.
pub proof fn lemma_boundary_delete_strips(w: RectWall, x: int, y: int, boundary_width: int)
    requires
        w.in_simulation(),
        0 <= boundary_width,
    ensures
        w.rect.max.y == SIMULATION_HEIGHT - 1 && y >= SIMULATION_HEIGHT + boundary_width
            && w.rect.min.x + boundary_width <= x <= w.rect.max.x + boundary_width
            ==> w.spec_boundary_delete(x, y, boundary_width),
        w.rect.min.y == 0 && y < boundary_width && w.rect.min.x + boundary_width <= x
            <= w.rect.max.x + boundary_width ==> w.spec_boundary_delete(x, y, boundary_width),
        w.rect.max.x == SIMULATION_WIDTH - 1 && x >= SIMULATION_WIDTH + boundary_width
            && w.rect.min.y + boundary_width <= y <= w.rect.max.y + boundary_width
            ==> w.spec_boundary_delete(x, y, boundary_width),
        w.rect.min.x == 0 && x < boundary_width && w.rect.min.y + boundary_width <= y
            <= w.rect.max.y + boundary_width ==> w.spec_boundary_delete(x, y, boundary_width),
        boundary_width <= x < SIMULATION_WIDTH + boundary_width && boundary_width <= y
            < SIMULATION_HEIGHT + boundary_width ==> !w.spec_boundary_delete(
            x,
            y,
            boundary_width,
        ),
        (0 < w.rect.min.x && w.rect.max.x < SIMULATION_WIDTH - 1 && 0 < w.rect.min.y
            && w.rect.max.y < SIMULATION_HEIGHT - 1) ==> !w.spec_boundary_delete(
            x,
            y,
            boundary_width,
        ),
{
}

/// The outline of a wall with ordered corners is part of its rectangle, and a wall that is not
/// hollow covers exactly its rectangle.
pub proof fn lemma_rect_wall_edge_inside(wall: RectWall, x: int, y: int)
    requires
        wall.rect.is_ordered(),
    ensures
        wall.spec_on_edge(x, y) ==> wall.spec_inside(x, y),
        wall.spec_contains(x, y) ==> wall.spec_inside(x, y),
        !wall.is_hollow ==> (wall.spec_contains(x, y) <==> wall.spec_inside(x, y)),
{
}

/// Largest value whose square does not exceed `n`.
pub open spec fn is_integer_sqrt(r: int, n: int) -> bool {
    0 <= r && r * r <= n < (r + 1) * (r + 1)
}

/// The integer square root of `n`, found by counting up.
fn integer_sqrt(n: u32) -> (r: u32)
    ensures
        is_integer_sqrt(r as int, n as int),
{
    let mut r: u64 = 0;
    let n64 = n as u64;
    loop
        invariant_except_break
            n64 == n,
            r * r <= n64,
            r < 0x10000,
        ensures
            r * r <= n64 < (r + 1) * (r + 1),
            r < 0x10000,
        decreases n64 - r,
    {
        let next = r + 1;
        assert(next * next <= 0x1_0000_0000) by (nonlinear_arith)
            requires
                next <= 0x10000,
        ;
        if next * next > n64 {
            break;
        }
        assert(next < 0x10000) by (nonlinear_arith)
            requires
                next * next <= n64,
                n64 <= u32::MAX,
        ;
        assert(next <= next * next) by (nonlinear_arith);
        r = next;
    }
    r as u32
}

/// A circular wall.
#[derive(Clone, Copy, Debug, PartialEq, Eq, Structural)]
pub struct CircWall {
    pub center: UVec2,
    /// Radius excludes center point
    /// r = 1 creates a three pixel wide/tall circle
    pub radius: u32,
    pub is_hollow: bool,
    /// The reflection factor, an `f32` held as its bit pattern.
    pub reflection_factor: u32,
    /// open segment from x-axis (mirrored) in degrees, an `f32` held as its
    /// bit pattern
    pub open_circ_segment: u32,
    /// rotation angle in degrees, an `f32` held as its bit pattern
    pub rotation_angle: u32,
    pub id: usize,
    /// The point at which the radius handle is drawn.
    pub resize_point: UVec2,
}

impl CircWall {
    /// Squared distance between the cell `(x, y)` and the wall's center.
    pub open spec fn dist_sq(self, x: int, y: int) -> int {
        (self.center.x - x) * (self.center.x - x) + (self.center.y - y) * (self.center.y - y)
    }

    /// The squared distance to `(x, y)` and the squared radius can be
    /// computed with 32-bit signed integers, as the wall's tests do.
    pub open spec fn fits_i32(self, x: int, y: int) -> bool {
        &&& x <= i32::MAX
        &&& y <= i32::MAX
        &&& self.center.x <= i32::MAX
        &&& self.center.y <= i32::MAX
        &&& self.radius * self.radius <= i32::MAX
        &&& (self.center.x - x) * (self.center.x - x) <= i32::MAX
        &&& (self.center.y - y) * (self.center.y - y) <= i32::MAX
        &&& self.dist_sq(x, y) <= i32::MAX
    }

    /// The cell `(x, y)` is covered by the filled disc of the wall; a hollow
    /// wall covers no cell this way (its outline is drawn separately).
    pub open spec fn spec_contains(self, x: int, y: int) -> bool {
        !self.is_hollow && self.dist_sq(x, y) < self.radius * self.radius
    }

    /// The cell `(x, y)` of the full grid (boundary included) lies in the
    /// absorbing boundary straight beyond a point where the circle touches or
    /// crosses the border of the simulated area.
    pub open spec fn spec_boundary_delete(self, x: int, y: int, boundary_width: int) -> bool {
        let bcx = self.center.x + boundary_width;
        let bcy = self.center.y + boundary_width;
        ||| x < boundary_width && y == bcy && bcx - self.radius <= boundary_width
        ||| x >= SIMULATION_WIDTH + boundary_width && y == bcy && bcx + self.radius
            >= SIMULATION_WIDTH + boundary_width
        ||| y < boundary_width && x == bcx && bcy - self.radius <= boundary_width
        ||| y >= SIMULATION_HEIGHT + boundary_width && x == bcx && bcy + self.radius
            >= SIMULATION_HEIGHT + boundary_width
    }

    /// The arithmetic of `boundary_delete` stays in range for `(x, y)`.
    pub open spec fn boundary_delete_fits(self, x: int, y: int, boundary_width: int) -> bool {
        let bcx = self.center.x + boundary_width;
        let bcy = self.center.y + boundary_width;
        &&& bcx <= u32::MAX
        &&& bcy <= u32::MAX
        &&& SIMULATION_WIDTH + boundary_width <= u32::MAX
        &&& SIMULATION_HEIGHT + boundary_width <= u32::MAX
        &&& (x < boundary_width && y == bcy) ==> bcx <= i32::MAX && self.radius <= i32::MAX
            && boundary_width <= i32::MAX
        &&& (x >= SIMULATION_WIDTH + boundary_width && y == bcy) ==> bcx + self.radius
            <= u32::MAX
        &&& (y < boundary_width && x == bcx) ==> bcy <= i32::MAX && self.radius <= i32::MAX
            && boundary_width <= i32::MAX
        &&& (y >= SIMULATION_HEIGHT + boundary_width && x == bcx) ==> bcy + self.radius
            <= u32::MAX
    }

    pub fn new(
        x: u32,
        y: u32,
        radius: u32,
        is_hollow: bool,
        reflection_factor: u32,
        id: usize,
    ) -> (w: Self)
        ensures
            w.center == (UVec2 { x, y }),
            w.radius == radius,
            w.is_hollow == is_hollow,
            w.reflection_factor == reflection_factor,
            w.open_circ_segment == 0,
            w.rotation_angle == 0,
            w.id == id,
            w.resize_point == (UVec2 { x, y }),
    {
        CircWall {
            center: UVec2 { x, y },
            radius,
            is_hollow,
            reflection_factor,
            open_circ_segment: 0,
            rotation_angle: 0,
            id,
            resize_point: UVec2 { x, y },
        }
    }

    pub fn get_center(&self) -> (c: UVec2)
        ensures
            c == self.center,
    {
        self.center
    }

    pub fn get_resize_point(&self, resize_type: &WResize) -> (p: UVec2)
        requires
            *resize_type == WResize::Radius,
        ensures
            p == self.resize_point,
    {
        UVec2 { x: self.resize_point.x, y: self.resize_point.y }
    }

    pub fn contains(&self, x: u32, y: u32) -> (b: bool)
        requires
            !self.is_hollow ==> self.fits_i32(x as int, y as int),
        ensures
            b == self.spec_contains(x as int, y as int),
    {
        if self.is_hollow {
            return false;
        }
        let r_squared = self.radius * self.radius;

        let dx: i32 = self.center.x as i32 - x as i32;
        let dy: i32 = self.center.y as i32 - y as i32;
        assert(0 <= dx * dx && 0 <= dy * dy) by (nonlinear_arith);
        dx * dx + dy * dy < r_squared as i32
    }

    pub fn is_deletable(&self) -> (b: bool)
        ensures
            b == (self.radius == 0),
    {
        self.radius == 0
    }

    pub fn set_center(&mut self, x: u32, y: u32)
        ensures
            *final(self) == (CircWall { center: UVec2 { x, y }, ..*old(self) }),
    {
        self.center.x = x;
        self.center.y = y;
    }

    /// The reflection factor's bit pattern.
    pub fn get_reflection_factor(&self) -> (f: u32)
        ensures
            f == self.reflection_factor,
    {
        self.reflection_factor
    }

    /// Drags the radius handle to `(x, y)`: the handle follows the pointer
    /// and the radius becomes the whole number of cells between the center
    /// and the pointer. The rotation angle, a floating-point quantity, is
    /// left as it was.
    pub fn resize(&mut self, resize_type: &WResize, x: u32, y: u32)
        requires
            *resize_type == WResize::Radius || *resize_type == WResize::Menu,
            *resize_type == WResize::Radius ==> old(self).fits_i32(x as int, y as int)
                && old(self).dist_sq(x as int, y as int) < 0x100_0000,
        ensures
            *resize_type == WResize::Menu ==> *final(self) == *old(self),
            *resize_type == WResize::Radius ==> {
                &&& final(self).resize_point == (UVec2 { x, y })
                &&& is_integer_sqrt(
                    final(self).radius as int,
                    old(self).dist_sq(x as int, y as int),
                )
                &&& final(self).center == old(self).center
                &&& final(self).is_hollow == old(self).is_hollow
                &&& final(self).reflection_factor == old(self).reflection_factor
                &&& final(self).open_circ_segment == old(self).open_circ_segment
                &&& final(self).rotation_angle == old(self).rotation_angle
                &&& final(self).id == old(self).id
            },
    {
        match resize_type {
            WResize::Radius => {
                self.resize_point.x = x;
                self.resize_point.y = y;

                let x_offset: i32 = self.center.x as i32 - x as i32;
                let y_offset: i32 = self.center.y as i32 - y as i32;
                assert(0 <= x_offset * x_offset && 0 <= y_offset * y_offset) by (nonlinear_arith);
                self.radius = integer_sqrt((x_offset * x_offset + y_offset * y_offset) as u32);
            },
            _ => {},
        }
    }

    pub fn boundary_delete(&self, x: u32, y: u32, boundary_width: u32) -> (b: bool)
        requires
            self.boundary_delete_fits(x as int, y as int, boundary_width as int),
        ensures
            b == self.spec_boundary_delete(x as int, y as int, boundary_width as int),
    {
        let b_center_x = self.center.x + boundary_width;
        let b_center_y = self.center.y + boundary_width;

        if (x < boundary_width && y == b_center_y && (b_center_x as i32 - self.radius as i32)
            <= boundary_width as i32) || (x >= SIMULATION_WIDTH + boundary_width && y
            == b_center_y && b_center_x + self.radius >= SIMULATION_WIDTH + boundary_width) {
            return true;
        }
        if (y < boundary_width && x == b_center_x && (b_center_y as i32 - self.radius as i32)
            <= boundary_width as i32) || (y >= SIMULATION_HEIGHT + boundary_width && x
            == b_center_x && b_center_y + self.radius >= SIMULATION_HEIGHT + boundary_width) {
            return true;
        }
        false
    }

    pub fn contains_pointer(&self, x: u32, y: u32) -> (b: bool)
        requires
            self.fits_i32(x as int, y as int),
        ensures
            b == (self.dist_sq(x as int, y as int) <= self.radius * self.radius),
    {
        let x = x as i32;
        let y = y as i32;
        let center = self.get_center();
        let cx = center.x as i32;
        let cy = center.y as i32;
        assert(self.radius <= i32::MAX) by (nonlinear_arith)
            requires
                self.radius * self.radius <= i32::MAX,
        ;
        assert((x - cx) * (x - cx) == (cx - x) * (cx - x)) by (nonlinear_arith);
        assert((y - cy) * (y - cy) == (cy - y) * (cy - y)) by (nonlinear_arith);
        assert(0 <= (x - cx) * (x - cx) && 0 <= (y - cy) * (y - cy)) by (nonlinear_arith);
        (x - cx) * (x - cx) + (y - cy) * (y - cy) <= self.radius as i32 * self.radius as i32
    }
}

/// A filled circular wall covers only cells that its pointer test accepts,
/// and its center whenever the radius is positive.
pub proof fn lemma_circ_wall_contains_pointer(wall: CircWall, x: int, y: int)
    ensures
        wall.spec_contains(x, y) ==> wall.dist_sq(x, y) <= wall.radius * wall.radius,
        !wall.is_hollow && wall.radius > 0 ==> wall.spec_contains(
            wall.center.x as int,
            wall.center.y as int,
        ),
{
    if !wall.is_hollow && wall.radius > 0 {
        assert(wall.radius * wall.radius > 0) by (nonlinear_arith)
            requires
                wall.radius > 0,
        ;
    }
}

} // verus!

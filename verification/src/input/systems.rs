use vstd::prelude::*;

use crate::components::wall::{RectWall, WResize};
use crate::math::rect::{UVec2, WRect};
use crate::ui::state::{PlaceType, ToolType};

verus! {

/// How many cells the pointer may be away from an object's handle, along
/// each axis, and still grab it.
pub const GRAB_DISTANCE: u32 = 10;

/// The distance between two coordinates.
pub open spec fn abs_diff(a: int, b: int) -> int {
    if a >= b {
        a - b
    } else {
        b - a
    }
}

/// The pointer at `(x, y)` grabs a handle at `p`.
pub open spec fn spec_is_near(p: UVec2, x: int, y: int) -> bool {
    abs_diff(p.x as int, x) <= GRAB_DISTANCE && abs_diff(p.y as int, y) <= GRAB_DISTANCE
}

/// Whether the pointer at `(x, y)` grabs a handle at `p`.
pub fn is_near(p: UVec2, x: u32, y: u32) -> (b: bool)
    ensures
        b == spec_is_near(p, x as int, y as int),
{
    let dx = if p.x >= x {
        p.x - x
    } else {
        x - p.x
    };
    let dy = if p.y >= y {
        p.y - y
    } else {
        y - p.y
    };
    dx <= GRAB_DISTANCE && dy <= GRAB_DISTANCE
}

/// The first handle among `points` that the pointer at `(x, y)` grabs; only
/// one object is picked at a time.
pub fn find_near(points: &Vec<UVec2>, x: u32, y: u32) -> (found: Option<usize>)
    ensures
        match found {
            Some(i) => i < points.len() && spec_is_near(points@[i as int], x as int, y as int)
                && forall|j: int|
                0 <= j < i ==> !spec_is_near(#[trigger] points@[j], x as int, y as int),
            None => forall|j: int|
                0 <= j < points.len() ==> !spec_is_near(#[trigger] points@[j], x as int, y as int),
        },
{
    let mut i: usize = 0;
    while i < points.len()
        invariant
            i <= points.len(),
            forall|j: int| 0 <= j < i ==> !spec_is_near(#[trigger] points@[j], x as int, y as int),
        decreases points.len() - i,
    {
        if is_near(points[i], x, y) {
            return Some(i);
        }
        i = i + 1;
    }
    None
}

/// The first handle that the pointer at `(x, y)` grabs, searching the groups
/// of handles in order (for example sources, then microphones, then walls):
/// the group's position and the handle's position in it.
pub fn find_near_in_groups(groups: &Vec<Vec<UVec2>>, x: u32, y: u32) -> (found: Option<
    (usize, usize),
>)
    ensures
        match found {
            Some((g, i)) => {
                &&& g < groups.len()
                &&& i < groups@[g as int].len()
                &&& spec_is_near(groups@[g as int]@[i as int], x as int, y as int)
                &&& forall|j: int|
                    0 <= j < i ==> !spec_is_near(
                        #[trigger] groups@[g as int]@[j],
                        x as int,
                        y as int,
                    )
                &&& forall|h: int, j: int|
                    0 <= h < g && 0 <= j < groups@[h].len() ==> !spec_is_near(
                        #[trigger] groups@[h]@[j],
                        x as int,
                        y as int,
                    )
            },
            None => forall|h: int, j: int|
                0 <= h < groups.len() && 0 <= j < groups@[h].len() ==> !spec_is_near(
                    #[trigger] groups@[h]@[j],
                    x as int,
                    y as int,
                ),
        },
{
    let mut g: usize = 0;
    while g < groups.len()
        invariant
            g <= groups.len(),
            forall|h: int, j: int|
                0 <= h < g && 0 <= j < groups@[h].len() ==> !spec_is_near(
                    #[trigger] groups@[h]@[j],
                    x as int,
                    y as int,
                ),
        decreases groups.len() - g,
    {
        match find_near(&groups[g], x, y) {
            Some(i) => {
                return Some((g, i));
            },
            None => {},
        }
        g = g + 1;
    }
    None
}

/// `v` rounded to the nearest multiple of ten, halves rounding up.
pub open spec fn spec_snap_to_grid(v: int) -> int {
    (v + 5) / 10 * 10
}

/// Snaps a coordinate to the nearest multiple of ten, halves rounding up.
/// Up to 2^24, where every coordinate is exactly an `f32`, this is the
/// multiple of ten that rounding `v / 10.0` in single precision gives.
pub fn snap_to_grid(v: u32) -> (s: u32)
    requires
        v <= 0x100_0000,
    ensures
        s == spec_snap_to_grid(v as int),
        s % 10 == 0,
        abs_diff(s as int, v as int) <= 5,
{
    (v + 5) / 10 * 10
}

/// The wall's rectangle after its four corners have been dragged, one after
/// the other (top left, top right, bottom left, bottom right), onto the
/// nearest multiples of ten; with `inclusive_max` the bottom and right edges
/// stop one cell before the multiple, since a wall's bounds are inclusive.
pub open spec fn spec_snapped_corners(wall: RectWall, inclusive_max: bool) -> WRect {
    let k: int = if inclusive_max {
        1
    } else {
        0
    };
    let min_x = spec_snap_to_grid(wall.rect.min.x as int);
    let min_y = spec_snap_to_grid(wall.rect.min.y as int);
    let max_x = spec_snap_to_grid(wall.rect.max.x as int) - k;
    let max_y = spec_snap_to_grid(wall.rect.max.y as int) - k;
    let w1 = RectWall { rect: wall.spec_resized(WResize::TopLeft, min_x, min_y), ..wall };
    let w2 = RectWall { rect: w1.spec_resized(WResize::TopRight, max_x, min_y), ..w1 };
    let w3 = RectWall { rect: w2.spec_resized(WResize::BottomLeft, min_x, max_y), ..w2 };
    w3.spec_resized(WResize::BottomRight, max_x, max_y)
}

/// Where the snapped corners stay apart, snapping lands every corner on the
/// grid: the top left corner on the nearest multiples of ten, the bottom
/// right one on the nearest multiples of ten (one cell before them with
/// `inclusive_max`).
pub proof fn lemma_snapped_corners_land_on_grid(wall: RectWall, inclusive_max: bool)
    requires
        wall.rect.max.x <= 0x100_0000,
        wall.rect.max.y <= 0x100_0000,
        wall.rect.min.x <= 0x100_0000,
        wall.rect.min.y <= 0x100_0000,
        spec_snap_to_grid(wall.rect.min.x as int) < wall.rect.max.x,
        spec_snap_to_grid(wall.rect.min.y as int) < wall.rect.max.y,
        spec_snap_to_grid(wall.rect.min.x as int) < spec_snap_to_grid(wall.rect.max.x as int) - (
        if inclusive_max {
            1int
        } else {
            0
        }),
        spec_snap_to_grid(wall.rect.min.y as int) < spec_snap_to_grid(wall.rect.max.y as int) - (
        if inclusive_max {
            1int
        } else {
            0
        }),
    ensures
        ({
            let r = spec_snapped_corners(wall, inclusive_max);
            let k: int = if inclusive_max {
                1
            } else {
                0
            };
            &&& r.min.x % 10 == 0 && -5 <= r.min.x - wall.rect.min.x <= 5
            &&& r.min.y % 10 == 0 && -5 <= r.min.y - wall.rect.min.y <= 5
            &&& (r.max.x + k) % 10 == 0 && -5 <= r.max.x + k - wall.rect.max.x <= 5
            &&& (r.max.y + k) % 10 == 0 && -5 <= r.max.y + k - wall.rect.max.y <= 5
        }),
{
}

/// Snaps the four corners of a wall to the grid of multiples of ten. The
/// wall stays at least two cells wide and tall.
pub fn snap_corners_to_grid(wall: &mut RectWall, inclusive_max: bool)
    requires
        old(wall).rect.max.x >= 1,
        old(wall).rect.max.y >= 1,
        old(wall).rect.min.x <= 0x100_0000,
        old(wall).rect.min.y <= 0x100_0000,
        old(wall).rect.max.x <= 0x100_0000,
        old(wall).rect.max.y <= 0x100_0000,
        inclusive_max ==> spec_snap_to_grid(old(wall).rect.max.x as int) >= 1
            && spec_snap_to_grid(old(wall).rect.max.y as int) >= 1,
    ensures
        final(wall).rect == spec_snapped_corners(*old(wall), inclusive_max),
        final(wall).rect.min.x < final(wall).rect.max.x,
        final(wall).rect.min.y < final(wall).rect.max.y,
        final(wall).is_hollow == old(wall).is_hollow,
        final(wall).reflection_factor == old(wall).reflection_factor,
        final(wall).id == old(wall).id,
        final(wall).draw_pin == old(wall).draw_pin,
{
    let k: u32 = if inclusive_max {
        1
    } else {
        0
    };
    let min = UVec2 { x: snap_to_grid(wall.rect.min.x), y: snap_to_grid(wall.rect.min.y) };
    let max = UVec2 {
        x: snap_to_grid(wall.rect.max.x) - k,
        y: snap_to_grid(wall.rect.max.y) - k,
    };
    wall.resize(&WResize::TopLeft, min.x, min.y);
    wall.resize(&WResize::TopRight, max.x, min.y);
    wall.resize(&WResize::BottomLeft, min.x, max.y);
    wall.resize(&WResize::BottomRight, max.x, max.y);
}

/// The tool-selecting keys that were pressed in this frame.
#[derive(Clone, Copy, Debug, PartialEq, Eq, Structural)]
pub struct ToolKeys {
    /// select
    pub q: bool,
    /// move
    pub w: bool,
    /// resize
    pub e: bool,
    /// place a rectangular wall
    pub r: bool,
    /// place a circular wall
    pub c: bool,
    /// place a source
    pub s: bool,
    /// place a microphone
    pub m: bool,
}

/// The tool and object type after the keyboard shortcuts of one frame. The
/// later shortcut in the order Q, W, E, R, C, S, M wins; while the control
/// key is held, Q, C and S are left to quitting, copying and saving.
pub open spec fn spec_tool_shortcuts(
    current_tool: ToolType,
    cur_place_type: PlaceType,
    keys: ToolKeys,
    ctrl: bool,
) -> (ToolType, PlaceType) {
    if keys.m {
        (ToolType::Place(PlaceType::Mic), PlaceType::Mic)
    } else if keys.s && !ctrl {
        (ToolType::Place(PlaceType::Source), PlaceType::Source)
    } else if keys.c && !ctrl {
        (ToolType::Place(PlaceType::CircWall), PlaceType::CircWall)
    } else if keys.r {
        (ToolType::Place(PlaceType::RectWall), PlaceType::RectWall)
    } else if keys.e {
        (ToolType::ResizeWall, cur_place_type)
    } else if keys.w {
        (ToolType::Move, cur_place_type)
    } else if keys.q && !ctrl {
        (ToolType::Select, cur_place_type)
    } else {
        (current_tool, cur_place_type)
    }
}

/// No key pressed.
pub open spec fn no_keys() -> ToolKeys {
    ToolKeys { q: false, w: false, e: false, r: false, c: false, s: false, m: false }
}

/// Without tool keys the tool and the place type stay as they are. While
/// control is held, Q, C and S belong to quitting, copying and saving:
/// whether they are pressed makes no difference to the tool or the place
/// type, so control with only some of them pressed changes nothing.
pub proof fn lemma_ctrl_reserves_quit_copy_save(
    tool: ToolType,
    place: PlaceType,
    k1: ToolKeys,
    k2: ToolKeys,
)
    requires
        k1.w == k2.w,
        k1.e == k2.e,
        k1.r == k2.r,
        k1.m == k2.m,
    ensures
        spec_tool_shortcuts(tool, place, k1, true) == spec_tool_shortcuts(tool, place, k2, true),
        spec_tool_shortcuts(tool, place, no_keys(), true) == (tool, place),
        spec_tool_shortcuts(tool, place, no_keys(), false) == (tool, place),
        !k1.w && !k1.e && !k1.r && !k1.m ==> spec_tool_shortcuts(tool, place, k1, true) == (
            tool,
            place,
        ),
{
}

/// Each tool key pressed alone picks its tool: Q selecting, W moving, E
/// resizing walls, R, C, S and M placing rectangular walls, circular walls,
/// sources and microphones (with the place type set to match). W, E, R and
/// M do so whether control is held or not.
pub proof fn lemma_each_shortcut_alone(tool: ToolType, place: PlaceType, ctrl: bool)
    ensures
        spec_tool_shortcuts(tool, place, ToolKeys { q: true, ..no_keys() }, false) == (
            ToolType::Select,
            place,
        ),
        spec_tool_shortcuts(tool, place, ToolKeys { w: true, ..no_keys() }, ctrl) == (
            ToolType::Move,
            place,
        ),
        spec_tool_shortcuts(tool, place, ToolKeys { e: true, ..no_keys() }, ctrl) == (
            ToolType::ResizeWall,
            place,
        ),
        spec_tool_shortcuts(tool, place, ToolKeys { r: true, ..no_keys() }, ctrl) == (
            ToolType::Place(PlaceType::RectWall),
            PlaceType::RectWall,
        ),
        spec_tool_shortcuts(tool, place, ToolKeys { c: true, ..no_keys() }, false) == (
            ToolType::Place(PlaceType::CircWall),
            PlaceType::CircWall,
        ),
        spec_tool_shortcuts(tool, place, ToolKeys { s: true, ..no_keys() }, false) == (
            ToolType::Place(PlaceType::Source),
            PlaceType::Source,
        ),
        spec_tool_shortcuts(tool, place, ToolKeys { m: true, ..no_keys() }, ctrl) == (
            ToolType::Place(PlaceType::Mic),
            PlaceType::Mic,
        ),
{
}

/// A place tool picked by a shortcut always places the place type it sets.
pub proof fn lemma_shortcut_place_tool_matches(
    tool: ToolType,
    place: PlaceType,
    keys: ToolKeys,
    ctrl: bool,
)
    requires
        tool is Place ==> tool == ToolType::Place(place),
    ensures
        spec_tool_shortcuts(tool, place, keys, ctrl).0 is Place ==> spec_tool_shortcuts(
            tool,
            place,
            keys,
            ctrl,
        ).0 == ToolType::Place(spec_tool_shortcuts(tool, place, keys, ctrl).1),
{
}

/// Applies the keyboard shortcuts that switch tools.
pub fn apply_tool_shortcuts(
    current_tool: ToolType,
    cur_place_type: PlaceType,
    keys: ToolKeys,
    ctrl: bool,
) -> (r: (ToolType, PlaceType))
    ensures
        r == spec_tool_shortcuts(current_tool, cur_place_type, keys, ctrl),
{
    let mut tool = current_tool;
    let mut place = cur_place_type;
    if keys.q && !ctrl {
        tool = ToolType::Select;
    }
    if keys.w {
        tool = ToolType::Move;
    }
    if keys.e {
        tool = ToolType::ResizeWall;
    }
    if keys.r {
        tool = ToolType::Place(PlaceType::RectWall);
        place = PlaceType::RectWall;
    }
    // ctrl + c is reserved for copy
    if keys.c && !ctrl {
        tool = ToolType::Place(PlaceType::CircWall);
        place = PlaceType::CircWall;
    }
    // ctrl + s is reserved for save
    if keys.s && !ctrl {
        tool = ToolType::Place(PlaceType::Source);
        place = PlaceType::Source;
    }
    if keys.m {
        tool = ToolType::Place(PlaceType::Mic);
        place = PlaceType::Mic;
    }
    (tool, place)
}

/// What a press of the Z key asks for: `Some(true)` to undo (with
/// control), `Some(false)` to redo (with control and shift), `None` otherwise.
pub fn undo_command(ctrl: bool, shift: bool, z_pressed: bool) -> (cmd: Option<bool>)
    ensures
        cmd == (if ctrl && z_pressed {
            Some(!shift)
        } else {
            None
        }),
{
    if ctrl && !shift && z_pressed {
        Some(true)
    } else if ctrl && shift && z_pressed {
        Some(false)
    } else {
        None
    }
}

} // verus!

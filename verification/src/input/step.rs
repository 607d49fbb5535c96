//! What one frame of mouse and keyboard input does to the scene: which object
//! a click selects, grabs or starts to resize, what is placed, how grabbed
//! objects follow the pointer while the button is held, and what a release
//! cleans up.

use vstd::prelude::*;

use crate::components::wall::{axis_shift, is_integer_sqrt, CircWall, RectWall, WResize};
use crate::grid::plugin::ComponentIDs;
use crate::input::systems::{
    apply_tool_shortcuts, is_near, snap_corners_to_grid, snap_to_grid,
    spec_is_near, spec_snap_to_grid, spec_snapped_corners, spec_tool_shortcuts, ToolKeys,
};
use crate::math::constants::{SIMULATION_HEIGHT, SIMULATION_WIDTH};
use crate::math::rect::{UVec2, WRect};
use crate::ui::state::{PlaceType, ToolType};

verus! {

/// A source or a microphone: a position and an id.
#[derive(Clone, Copy, Debug, PartialEq, Eq, Structural)]
pub struct Marker {
    pub x: u32,
    pub y: u32,
    pub id: usize,
}

/// An object of the scene with the tags that the input handling gives it.
/// `entity` identifies the object to its owner; objects placed by a step
/// have none yet.
#[derive(Clone, Copy, Debug, PartialEq, Eq, Structural)]
pub struct Tagged<T> {
    pub item: T,
    pub entity: Option<u64>,
    pub selected: bool,
    pub moving: bool,
    pub resize: Option<WResize>,
}

/// All objects of the scene, each kind in the order its owner lists them.
pub struct Scene {
    pub sources: Vec<Tagged<Marker>>,
    pub mics: Vec<Tagged<Marker>>,
    pub rect_walls: Vec<Tagged<RectWall>>,
    pub circ_walls: Vec<Tagged<CircWall>>,
}

/// The objects of a scene as sequences.
pub struct SceneView {
    pub sources: Seq<Tagged<Marker>>,
    pub mics: Seq<Tagged<Marker>>,
    pub rect_walls: Seq<Tagged<RectWall>>,
    pub circ_walls: Seq<Tagged<CircWall>>,
}

impl View for Scene {
    type V = SceneView;

    open spec fn view(&self) -> SceneView {
        SceneView {
            sources: self.sources@,
            mics: self.mics@,
            rect_walls: self.rect_walls@,
            circ_walls: self.circ_walls@,
        }
    }
}

/// The input of one frame: the left mouse button, the grid cells under the
/// pointer, the keys, and the settings that new walls are placed with.
/// `nearest` is the cell nearest to the pointer, clamped to the simulated
/// area; `exact` is the cell under the pointer when it is over the image.
/// Both are `None` when the window has no pointer position.
#[derive(Clone, Copy, Debug, PartialEq, Eq, Structural)]
pub struct PointerFrame {
    pub just_pressed: bool,
    pub pressed: bool,
    pub just_released: bool,
    pub nearest: Option<UVec2>,
    pub exact: Option<UVec2>,
    pub ctrl: bool,
    pub space: bool,
    pub keys: ToolKeys,
    pub tools_enabled: bool,
    pub tool_use_enabled: bool,
    pub wall_is_hollow: bool,
    /// The reflection factor of new walls, an `f32` held as its bit pattern.
    pub wall_reflection_factor: u32,
}

/// What a step asks its owner to do besides changing the scene.
#[derive(Clone, Copy, Debug, PartialEq, Eq, Structural)]
pub struct StepEvents {
    /// Walls may have been moved, resized or removed: rebuild the wall cache.
    pub update_walls: bool,
    /// Fold the header of the tool panel.
    pub collapse_header: bool,
}

/// The four kinds of objects.
#[derive(Clone, Copy, Debug, PartialEq, Eq, Structural)]
pub enum ObjectKind {
    Source,
    Mic,
    RectWall,
    CircWall,
}

/// The first handle from index `i` on that is not skipped and that the
/// pointer at `p` grabs.
pub open spec fn spec_first_near(points: Seq<UVec2>, skip: Seq<bool>, p: UVec2, i: int) -> Option<
    usize,
>
    decreases points.len() - i,
{
    if i >= points.len() {
        None
    } else if !skip[i] && spec_is_near(points[i], p.x as int, p.y as int) {
        Some(i as usize)
    } else {
        spec_first_near(points, skip, p, i + 1)
    }
}

/// The first handle among `points` that is not skipped and that the pointer
/// at `p` grabs.
pub fn first_near(points: &Vec<UVec2>, skip: &Vec<bool>, p: UVec2) -> (found: Option<usize>)
    requires
        skip.len() == points.len(),
    ensures
        found == spec_first_near(points@, skip@, p, 0),
        found matches Some(i) ==> i < points.len(),
{
    let mut i: usize = 0;
    while i < points.len()
        invariant
            i <= points.len(),
            skip.len() == points.len(),
            spec_first_near(points@, skip@, p, 0) == spec_first_near(points@, skip@, p, i as int),
        decreases points.len() - i,
    {
        if !skip[i] && is_near(points[i], p.x, p.y) {
            return Some(i);
        }
        i = i + 1;
    }
    None
}

/// The search from index `i` on finds the first handle at or after `i`
/// that is not skipped and that the pointer grabs, or tells that there is
/// none.
pub proof fn lemma_first_near_from(points: Seq<UVec2>, skip: Seq<bool>, p: UVec2, i: int)
    requires
        skip.len() == points.len(),
        0 <= i <= points.len(),
        points.len() <= usize::MAX,
    ensures
        match spec_first_near(points, skip, p, i) {
            Some(k) => i <= k < points.len() && !skip[k as int] && spec_is_near(
                points[k as int],
                p.x as int,
                p.y as int,
            ) && forall|j: int|
                i <= j < k ==> skip[j] || !spec_is_near(#[trigger] points[j], p.x as int, p.y as int),
            None => forall|j: int|
                i <= j < points.len() ==> skip[j] || !spec_is_near(
                    #[trigger] points[j],
                    p.x as int,
                    p.y as int,
                ),
        },
    decreases points.len() - i,
{
    if i < points.len() {
        lemma_first_near_from(points, skip, p, i + 1);
    }
}

/// The search finds the first handle that is not skipped and that the
/// pointer grabs: one object at a time, the earliest in the list.
pub proof fn lemma_first_near_is_first(points: Seq<UVec2>, skip: Seq<bool>, p: UVec2)
    requires
        skip.len() == points.len(),
        points.len() <= usize::MAX,
    ensures
        match spec_first_near(points, skip, p, 0) {
            Some(k) => k < points.len() && !skip[k as int] && spec_is_near(
                points[k as int],
                p.x as int,
                p.y as int,
            ) && forall|j: int|
                0 <= j < k ==> skip[j] || !spec_is_near(#[trigger] points[j], p.x as int, p.y as int),
            None => forall|j: int|
                0 <= j < points.len() ==> skip[j] || !spec_is_near(
                    #[trigger] points[j],
                    p.x as int,
                    p.y as int,
                ),
        },
{
    lemma_first_near_from(points, skip, p, 0);
}

/// Where sources and microphones are grabbed: at their position.
pub open spec fn marker_points(s: Seq<Tagged<Marker>>) -> Seq<UVec2> {
    Seq::new(s.len(), |i: int| UVec2 { x: s[i].item.x, y: s[i].item.y })
}

/// Where rectangular walls are selected and moved: at their center.
pub open spec fn rect_centers(s: Seq<Tagged<RectWall>>) -> Seq<UVec2> {
    Seq::new(s.len(), |i: int| s[i].item.rect.spec_center())
}

/// Where circular walls are selected and moved: at their center.
pub open spec fn circ_centers(s: Seq<Tagged<CircWall>>) -> Seq<UVec2> {
    Seq::new(s.len(), |i: int| s[i].item.center)
}

/// Where circular walls are resized: at their radius handle.
pub open spec fn circ_handles(s: Seq<Tagged<CircWall>>) -> Seq<UVec2> {
    Seq::new(s.len(), |i: int| s[i].item.resize_point)
}

/// The corner handles in the order they are tried on each wall.
pub open spec fn corner(c: int) -> WResize {
    if c == 0 {
        WResize::TopLeft
    } else if c == 1 {
        WResize::TopRight
    } else if c == 2 {
        WResize::BottomLeft
    } else {
        WResize::BottomRight
    }
}

/// The corner handles of all rectangular walls, four per wall.
pub open spec fn rect_handles(s: Seq<Tagged<RectWall>>) -> Seq<UVec2> {
    Seq::new(4 * s.len(), |k: int| s[k / 4].item.spec_resize_point(corner(k % 4)))
}

/// Which objects are currently selected.
pub open spec fn selected_flags<T>(s: Seq<Tagged<T>>) -> Seq<bool> {
    Seq::new(s.len(), |i: int| s[i].selected)
}

/// Nothing is skipped.
pub open spec fn no_skip(n: int) -> Seq<bool> {
    Seq::new(n as nat, |i: int| false)
}

/// The largest coordinate that the scene's circular walls are kept within:
/// the squared distance from such a center to any cell of the simulated area
/// stays below 2^24, where the radius a drag gives is exact.
pub open spec fn axis_limit() -> int {
    2000
}

/// The largest coordinate that the scene's rectangular walls are kept
/// within: snapping to the grid of multiples of ten stays exact below 2^24,
/// and snaps this value to itself.
pub open spec fn rect_limit() -> int {
    16_777_200
}

/// The grid coordinates of rectangular walls stay small enough for their
/// centers and snapped corners to be computed (a top left corner stays below
/// the largest coordinate, so that a wall can be resized past it); circular walls stay small
/// enough for their radius to be measured; a rectangular wall is never
/// resized by a radius handle, a circular wall only by its radius or by the
/// menu.
pub open spec fn scene_fits(s: SceneView) -> bool {
    &&& forall|i: int|
        0 <= i < s.rect_walls.len() ==> {
            let w = #[trigger] s.rect_walls[i];
            &&& w.item.rect.is_ordered()
            &&& w.item.rect.min.x < rect_limit()
            &&& w.item.rect.min.y < rect_limit()
            &&& w.item.rect.max.x <= rect_limit()
            &&& w.item.rect.max.y <= rect_limit()
            &&& w.item.draw_pin.x <= rect_limit()
            &&& w.item.draw_pin.y <= rect_limit()
            &&& w.resize != Some(WResize::Radius)
        }
    &&& forall|i: int|
        0 <= i < s.circ_walls.len() ==> {
            let w = #[trigger] s.circ_walls[i];
            &&& w.item.center.x <= axis_limit()
            &&& w.item.center.y <= axis_limit()
            &&& w.item.radius < 4096
            &&& (w.resize is None || w.resize == Some(WResize::Radius) || w.resize == Some(
                WResize::Menu,
            ))
        }
}

/// A left click with the tools enabled.
pub open spec fn press_active(f: PointerFrame) -> bool {
    f.just_pressed && f.tools_enabled && f.tool_use_enabled
}

/// Tags an index of a search with the kind of object searched.
pub open spec fn of_kind(found: Option<usize>, kind: ObjectKind) -> Option<(ObjectKind, usize)> {
    match found {
        Some(i) => Some((kind, i)),
        None => None,
    }
}

/// The object that a click selects (select tool) or grabs (move tool). The
/// select tool looks for the first object near the nearest cell that is not
/// already selected: sources, microphones, rectangular walls, circular walls.
/// The move tool looks for sources near the nearest cell, then walls near
/// the exact cell, then microphones near the nearest cell.
pub open spec fn spec_grabbed(s: SceneView, tool: ToolType, f: PointerFrame) -> Option<
    (ObjectKind, usize),
> {
    if !press_active(f) {
        None
    } else if tool == ToolType::Select {
        match f.nearest {
            Some(p) => {
                let a = spec_first_near(marker_points(s.sources), selected_flags(s.sources), p, 0);
                let b = spec_first_near(marker_points(s.mics), selected_flags(s.mics), p, 0);
                let c = spec_first_near(
                    rect_centers(s.rect_walls),
                    selected_flags(s.rect_walls),
                    p,
                    0,
                );
                let d = spec_first_near(
                    circ_centers(s.circ_walls),
                    selected_flags(s.circ_walls),
                    p,
                    0,
                );
                if a is Some {
                    of_kind(a, ObjectKind::Source)
                } else if b is Some {
                    of_kind(b, ObjectKind::Mic)
                } else if c is Some {
                    of_kind(c, ObjectKind::RectWall)
                } else {
                    of_kind(d, ObjectKind::CircWall)
                }
            },
            None => None,
        }
    } else if tool == ToolType::Move {
        let a = match f.nearest {
            Some(p) => spec_first_near(marker_points(s.sources), no_skip(s.sources.len() as int), p, 0),
            None => None,
        };
        let b = match f.exact {
            Some(q) => spec_first_near(
                rect_centers(s.rect_walls),
                no_skip(s.rect_walls.len() as int),
                q,
                0,
            ),
            None => None,
        };
        let c = match f.exact {
            Some(q) => spec_first_near(
                circ_centers(s.circ_walls),
                no_skip(s.circ_walls.len() as int),
                q,
                0,
            ),
            None => None,
        };
        let d = match f.nearest {
            Some(p) => spec_first_near(marker_points(s.mics), no_skip(s.mics.len() as int), p, 0),
            None => None,
        };
        if a is Some {
            of_kind(a, ObjectKind::Source)
        } else if b is Some {
            of_kind(b, ObjectKind::RectWall)
        } else if c is Some {
            of_kind(c, ObjectKind::CircWall)
        } else {
            of_kind(d, ObjectKind::Mic)
        }
    } else {
        None
    }
}

/// The rectangular wall and corner that a click with the resize tool grabs:
/// the first wall, and on it the first corner in the order top left, top
/// right, bottom left, bottom right, near the nearest cell.
pub open spec fn spec_rect_handle(s: SceneView, tool: ToolType, f: PointerFrame) -> Option<
    (usize, WResize),
> {
    if press_active(f) && tool == ToolType::ResizeWall && f.nearest is Some {
        match spec_first_near(
            rect_handles(s.rect_walls),
            no_skip(4 * s.rect_walls.len() as int),
            f.nearest->0,
            0,
        ) {
            Some(k) => Some(((k / 4) as usize, corner((k % 4) as int))),
            None => None,
        }
    } else {
        None
    }
}

/// The circular wall whose radius handle a click with the resize tool
/// grabs (besides any rectangular wall).
pub open spec fn spec_circ_handle(s: SceneView, tool: ToolType, f: PointerFrame) -> Option<usize> {
    if press_active(f) && tool == ToolType::ResizeWall && f.nearest is Some {
        spec_first_near(
            circ_handles(s.circ_walls),
            no_skip(s.circ_walls.len() as int),
            f.nearest->0,
            0,
        )
    } else {
        None
    }
}

fn marker_points_of(list: &Vec<Tagged<Marker>>) -> (v: Vec<UVec2>)
    ensures
        v@ == marker_points(list@),
{
    let mut v: Vec<UVec2> = Vec::new();
    let mut i: usize = 0;
    while i < list.len()
        invariant
            i <= list.len(),
            v@ == marker_points(list@).take(i as int),
        decreases list.len() - i,
    {
        v.push(UVec2 { x: list[i].item.x, y: list[i].item.y });
        i = i + 1;
        assert(v@ =~= marker_points(list@).take(i as int));
    }
    assert(v@ =~= marker_points(list@));
    v
}

fn rect_centers_of(list: &Vec<Tagged<RectWall>>) -> (v: Vec<UVec2>)
    requires
        forall|i: int|
            0 <= i < list.len() ==> (#[trigger] list@[i]).item.rect.max.x <= rect_limit()
                && list@[i].item.rect.max.y <= rect_limit() && list@[i].item.rect.is_ordered(),
    ensures
        v@ == rect_centers(list@),
{
    let mut v: Vec<UVec2> = Vec::new();
    let mut i: usize = 0;
    while i < list.len()
        invariant
            i <= list.len(),
            v@ == rect_centers(list@).take(i as int),
            forall|i: int|
                0 <= i < list.len() ==> (#[trigger] list@[i]).item.rect.max.x <= rect_limit()
                    && list@[i].item.rect.max.y <= rect_limit() && list@[i].item.rect.is_ordered(),
        decreases list.len() - i,
    {
        assert(list@[i as int].item.rect.max.x <= rect_limit());
        v.push(list[i].item.get_center());
        i = i + 1;
        assert(v@ =~= rect_centers(list@).take(i as int));
    }
    assert(v@ =~= rect_centers(list@));
    v
}

fn rect_handles_of(list: &Vec<Tagged<RectWall>>) -> (v: Vec<UVec2>)
    requires
        list.len() <= usize::MAX / 4,
    ensures
        v@ == rect_handles(list@),
{
    let mut v: Vec<UVec2> = Vec::new();
    let mut i: usize = 0;
    while i < list.len()
        invariant
            i <= list.len(),
            list.len() <= usize::MAX / 4,
            v@ == rect_handles(list@).take(4 * i),
        decreases list.len() - i,
    {
        let w = list[i].item;
        v.push(w.get_resize_point(&WResize::TopLeft));
        v.push(w.get_resize_point(&WResize::TopRight));
        v.push(w.get_resize_point(&WResize::BottomLeft));
        v.push(w.get_resize_point(&WResize::BottomRight));
        proof {
            let j = 4 * i;
            assert forall|k: int| 0 <= k < 4 * (i + 1) implies v@[k] == #[trigger] rect_handles(
                list@,
            )[k] by {
                if k >= j {
                    assert(k / 4 == i);
                    assert(k % 4 == k - j);
                }
            }
        }
        i = i + 1;
        assert(v@ =~= rect_handles(list@).take(4 * i));
    }
    assert(v@ =~= rect_handles(list@));
    v
}

fn circ_centers_of(list: &Vec<Tagged<CircWall>>) -> (v: Vec<UVec2>)
    ensures
        v@ == circ_centers(list@),
{
    let mut v: Vec<UVec2> = Vec::new();
    let mut i: usize = 0;
    while i < list.len()
        invariant
            i <= list.len(),
            v@ == circ_centers(list@).take(i as int),
        decreases list.len() - i,
    {
        v.push(list[i].item.get_center());
        i = i + 1;
        assert(v@ =~= circ_centers(list@).take(i as int));
    }
    assert(v@ =~= circ_centers(list@));
    v
}

fn circ_handles_of(list: &Vec<Tagged<CircWall>>) -> (v: Vec<UVec2>)
    ensures
        v@ == circ_handles(list@),
{
    let mut v: Vec<UVec2> = Vec::new();
    let mut i: usize = 0;
    while i < list.len()
        invariant
            i <= list.len(),
            v@ == circ_handles(list@).take(i as int),
        decreases list.len() - i,
    {
        v.push(list[i].item.get_resize_point(&WResize::Radius));
        i = i + 1;
        assert(v@ =~= circ_handles(list@).take(i as int));
    }
    assert(v@ =~= circ_handles(list@));
    v
}

fn selected_flags_of<T: Copy>(list: &Vec<Tagged<T>>) -> (v: Vec<bool>)
    ensures
        v@ == selected_flags(list@),
{
    let mut v: Vec<bool> = Vec::new();
    let mut i: usize = 0;
    while i < list.len()
        invariant
            i <= list.len(),
            v@ == selected_flags(list@).take(i as int),
        decreases list.len() - i,
    {
        v.push(list[i].selected);
        i = i + 1;
        assert(v@ =~= selected_flags(list@).take(i as int));
    }
    assert(v@ =~= selected_flags(list@));
    v
}

fn no_skip_of(n: usize) -> (v: Vec<bool>)
    ensures
        v@ == no_skip(n as int),
{
    let mut v: Vec<bool> = Vec::new();
    let mut i: usize = 0;
    while i < n
        invariant
            i <= n,
            v@ == no_skip(n as int).take(i as int),
        decreases n - i,
    {
        v.push(false);
        i = i + 1;
        assert(v@ =~= no_skip(n as int).take(i as int));
    }
    assert(v@ =~= no_skip(n as int));
    v
}

fn tag_kind(found: Option<usize>, kind: ObjectKind) -> (r: Option<(ObjectKind, usize)>)
    ensures
        r == of_kind(found, kind),
{
    match found {
        Some(i) => Some((kind, i)),
        None => None,
    }
}

/// The object that a click selects or grabs, as `spec_grabbed` describes.
pub fn find_grabbed(scene: &Scene, tool: ToolType, f: &PointerFrame) -> (r: Option<
    (ObjectKind, usize),
>)
    requires
        scene_fits(scene@),
    ensures
        r == spec_grabbed(scene@, tool, *f),
{
    if !(f.just_pressed && f.tools_enabled && f.tool_use_enabled) {
        return None;
    }
    match tool {
        ToolType::Select => match f.nearest {
            Some(p) => {
                let a = first_near(
                    &marker_points_of(&scene.sources),
                    &selected_flags_of(&scene.sources),
                    p,
                );
                if a.is_some() {
                    return tag_kind(a, ObjectKind::Source);
                }
                let b = first_near(&marker_points_of(&scene.mics), &selected_flags_of(&scene.mics), p);
                if b.is_some() {
                    return tag_kind(b, ObjectKind::Mic);
                }
                let c = first_near(
                    &rect_centers_of(&scene.rect_walls),
                    &selected_flags_of(&scene.rect_walls),
                    p,
                );
                if c.is_some() {
                    return tag_kind(c, ObjectKind::RectWall);
                }
                let d = first_near(
                    &circ_centers_of(&scene.circ_walls),
                    &selected_flags_of(&scene.circ_walls),
                    p,
                );
                tag_kind(d, ObjectKind::CircWall)
            },
            None => None,
        },
        ToolType::Move => {
            let a = match f.nearest {
                Some(p) => first_near(
                    &marker_points_of(&scene.sources),
                    &no_skip_of(scene.sources.len()),
                    p,
                ),
                None => None,
            };
            if a.is_some() {
                return tag_kind(a, ObjectKind::Source);
            }
            let b = match f.exact {
                Some(q) => first_near(
                    &rect_centers_of(&scene.rect_walls),
                    &no_skip_of(scene.rect_walls.len()),
                    q,
                ),
                None => None,
            };
            if b.is_some() {
                return tag_kind(b, ObjectKind::RectWall);
            }
            let c = match f.exact {
                Some(q) => first_near(
                    &circ_centers_of(&scene.circ_walls),
                    &no_skip_of(scene.circ_walls.len()),
                    q,
                ),
                None => None,
            };
            if c.is_some() {
                return tag_kind(c, ObjectKind::CircWall);
            }
            let d = match f.nearest {
                Some(p) => first_near(&marker_points_of(&scene.mics), &no_skip_of(scene.mics.len()), p),
                None => None,
            };
            tag_kind(d, ObjectKind::Mic)
        },
        _ => None,
    }
}

/// The tools with which a click on a grabbed handle resizes a wall.
pub open spec fn resize_tool(tool: ToolType) -> bool {
    ||| tool == ToolType::Place(PlaceType::RectWall)
    ||| tool == ToolType::Place(PlaceType::CircWall)
    ||| tool == ToolType::ResizeWall
}

/// The cell that grabbed objects follow while the button is held.
pub open spec fn drag_point(f: PointerFrame) -> Option<UVec2> {
    if f.pressed && f.tools_enabled {
        f.nearest
    } else {
        None
    }
}

/// A point with both coordinates snapped to the nearest multiple of ten.
pub open spec fn snapped_point(p: UVec2) -> UVec2 {
    UVec2 { x: spec_snap_to_grid(p.x as int) as u32, y: spec_snap_to_grid(p.y as int) as u32 }
}

/// Where a moved source, microphone or circular wall lands: on the drag
/// point, snapped to the grid while control is held.
pub open spec fn follow_point(f: PointerFrame) -> UVec2 {
    if f.ctrl {
        snapped_point(drag_point(f)->0)
    } else {
        drag_point(f)->0
    }
}

/// The rectangular wall after `set_center(x, y)`.
pub open spec fn spec_centered(w: RectWall, x: int, y: int) -> RectWall {
    let c = w.rect.spec_center();
    let sx = axis_shift(x - c.x, w.rect.min.x as int, w.rect.max.x as int, SIMULATION_WIDTH as int);
    let sy = axis_shift(y - c.y, w.rect.min.y as int, w.rect.max.y as int, SIMULATION_HEIGHT as int);
    RectWall {
        rect: WRect {
            min: UVec2 { x: (w.rect.min.x + sx) as u32, y: (w.rect.min.y + sy) as u32 },
            max: UVec2 { x: (w.rect.max.x + sx) as u32, y: (w.rect.max.y + sy) as u32 },
        },
        ..w
    }
}

/// Snapping to the grid gives a multiple of ten at most five cells away.
pub proof fn lemma_snap_close(v: int)
    requires
        0 <= v,
    ensures
        spec_snap_to_grid(v) % 10 == 0,
        -5 <= spec_snap_to_grid(v) - v <= 5,
        spec_snap_to_grid(v) >= 0,
{
}

/// While the move tool is held down, a moving source, microphone or
/// circular wall lands on the cell under the pointer: exactly on it, or,
/// with control held, on a multiple of ten in each axis at most five cells
/// from it. It keeps its id (and a circular wall its radius and other
/// settings).
pub proof fn lemma_moving_objects_follow_pointer(
    m: Tagged<Marker>,
    c: Tagged<CircWall>,
    kind: ObjectKind,
    i: int,
    g: Option<(ObjectKind, usize)>,
    f: PointerFrame,
    p: UVec2,
)
    requires
        f.pressed,
        f.tools_enabled,
        f.nearest == Some(p),
        p.x < SIMULATION_WIDTH,
        p.y < SIMULATION_HEIGHT,
        m.moving,
        c.moving,
    ensures
        ({
            let mm = next_marker(m, kind, i, g, ToolType::Move, f).item;
            let cc = next_circ_item(c, ToolType::Move, f);
            &&& mm.id == m.item.id
            &&& cc == (CircWall { center: cc.center, ..c.item })
            &&& !f.ctrl ==> mm.x == p.x && mm.y == p.y && cc.center == p
            &&& f.ctrl ==> mm.x % 10 == 0 && mm.y % 10 == 0 && -5 <= mm.x - p.x <= 5 && -5
                <= mm.y - p.y <= 5 && cc.center == (UVec2 { x: mm.x, y: mm.y })
        }),
{
    lemma_snap_close(p.x as int);
    lemma_snap_close(p.y as int);
}

/// Objects that are not grabbed stay where they are: a source or
/// microphone that is not moving, or any of them while the move tool is not
/// held down, keeps its position; so does a circular wall that is neither
/// moving nor being resized.
pub proof fn lemma_unmoved_objects_stay(
    m: Tagged<Marker>,
    c: Tagged<CircWall>,
    kind: ObjectKind,
    i: int,
    g: Option<(ObjectKind, usize)>,
    tool: ToolType,
    f: PointerFrame,
)
    ensures
        !(m.moving && tool == ToolType::Move && f.pressed && f.tools_enabled) ==> next_marker(
            m,
            kind,
            i,
            g,
            tool,
            f,
        ).item == m.item,
        !(c.moving && tool == ToolType::Move) && !(resize_tool(tool) && c.resize == Some(
            WResize::Radius,
        )) ==> next_circ_item(c, tool, f) == c.item,
        !(f.pressed && f.tools_enabled) ==> next_circ_item(c, tool, f) == c.item,
{
}

/// While the move tool is held down without control, a moving rectangular
/// wall keeps its size and stays in the simulated area, and where the area
/// leaves room its center lands on the cell under the pointer.
pub proof fn lemma_moving_rect_wall_follows_pointer(t: Tagged<RectWall>, f: PointerFrame, p: UVec2)
    requires
        f.pressed,
        f.tools_enabled,
        !f.ctrl,
        f.nearest == Some(p),
        p.x < SIMULATION_WIDTH,
        p.y < SIMULATION_HEIGHT,
        t.moving,
        t.item.in_simulation(),
    ensures
        ({
            let w = next_rect_item(t, ToolType::Move, f);
            let r = t.item.rect;
            let c = r.spec_center();
            &&& w.rect.max.x - w.rect.min.x == r.max.x - r.min.x
            &&& w.rect.max.y - w.rect.min.y == r.max.y - r.min.y
            &&& w.in_simulation()
            &&& w.id == t.item.id && w.is_hollow == t.item.is_hollow
            &&& (p.x < c.x ==> c.x - p.x <= r.min.x) && (p.x > c.x ==> p.x - c.x
                <= SIMULATION_WIDTH - 1 - r.max.x) ==> w.rect.spec_center().x == p.x
            &&& (p.y < c.y ==> c.y - p.y <= r.min.y) && (p.y > c.y ==> p.y - c.y
                <= SIMULATION_HEIGHT - 1 - r.max.y) ==> w.rect.spec_center().y == p.y
        }),
{
}

/// The integer square root of `n`.
pub open spec fn spec_isqrt(n: int) -> int {
    choose|r: int| is_integer_sqrt(r, n)
}

/// A natural number has one integer square root.
pub proof fn lemma_isqrt_unique(r: int, n: int)
    requires
        is_integer_sqrt(r, n),
    ensures
        r == spec_isqrt(n),
{
    let s = spec_isqrt(n);
    assert(is_integer_sqrt(s, n));
    if r < s {
        assert((r + 1) * (r + 1) <= s * s) by (nonlinear_arith)
            requires
                0 <= r + 1 <= s,
        ;
    }
    if s < r {
        assert((s + 1) * (s + 1) <= r * r) by (nonlinear_arith)
            requires
                0 <= s + 1 <= r,
        ;
    }
}

/// A click selects the grabbed object and unselects every other one.
pub open spec fn next_selected(
    selected: bool,
    kind: ObjectKind,
    i: int,
    grabbed: Option<(ObjectKind, usize)>,
    f: PointerFrame,
) -> bool {
    if press_active(f) {
        grabbed == Some((kind, i as usize))
    } else {
        selected
    }
}

/// The move tool marks the grabbed object as moving; a release ends every
/// move.
pub open spec fn next_moving(
    moving: bool,
    kind: ObjectKind,
    i: int,
    grabbed: Option<(ObjectKind, usize)>,
    tool: ToolType,
    f: PointerFrame,
) -> bool {
    if f.just_released {
        false
    } else if tool == ToolType::Move && grabbed == Some((kind, i as usize)) {
        true
    } else {
        moving
    }
}

/// A source or microphone after one frame: a moving one follows the pointer
/// while the move tool is held down.
pub open spec fn next_marker(
    t: Tagged<Marker>,
    kind: ObjectKind,
    i: int,
    grabbed: Option<(ObjectKind, usize)>,
    tool: ToolType,
    f: PointerFrame,
) -> Tagged<Marker> {
    let item = if drag_point(f) is Some && tool == ToolType::Move && t.moving {
        Marker { x: follow_point(f).x, y: follow_point(f).y, id: t.item.id }
    } else {
        t.item
    };
    Tagged {
        item,
        entity: t.entity,
        selected: next_selected(t.selected, kind, i, grabbed, f),
        moving: next_moving(t.moving, kind, i, grabbed, tool, f),
        resize: t.resize,
    }
}

/// A rectangular wall's geometry after one frame: a moving wall is centered
/// on the pointer (and its corners snapped while control is held); a wall
/// with a handle is resized by it (and its corners snapped, the bottom
/// right one inclusively, while control is held).
pub open spec fn next_rect_item(t: Tagged<RectWall>, tool: ToolType, f: PointerFrame) -> RectWall {
    if drag_point(f) is Some {
        let p = drag_point(f)->0;
        if tool == ToolType::Move && t.moving {
            let w1 = spec_centered(t.item, p.x as int, p.y as int);
            if f.ctrl {
                RectWall { rect: spec_snapped_corners(w1, false), ..w1 }
            } else {
                w1
            }
        } else if resize_tool(tool) && t.resize is Some {
            let w1 = RectWall { rect: t.item.spec_resized(t.resize->0, p.x as int, p.y as int), ..t.item };
            if f.ctrl {
                RectWall { rect: spec_snapped_corners(w1, true), ..w1 }
            } else {
                w1
            }
        } else {
            t.item
        }
    } else {
        t.item
    }
}

/// A rectangular wall after one frame.
pub open spec fn next_rect(
    t: Tagged<RectWall>,
    i: int,
    grabbed: Option<(ObjectKind, usize)>,
    handle: Option<(usize, WResize)>,
    tool: ToolType,
    f: PointerFrame,
) -> Tagged<RectWall> {
    Tagged {
        item: next_rect_item(t, tool, f),
        entity: t.entity,
        selected: next_selected(t.selected, ObjectKind::RectWall, i, grabbed, f),
        moving: next_moving(t.moving, ObjectKind::RectWall, i, grabbed, tool, f),
        resize: if f.just_released {
            None
        } else {
            match handle {
                Some((j, c)) => if j == i as usize {
                    Some(c)
                } else {
                    t.resize
                },
                None => t.resize,
            }
        },
    }
}

/// A circular wall's geometry after one frame: a moving wall's center
/// follows the pointer; a wall grabbed by its radius handle gets the handle
/// at the pointer and the whole number of cells to it as radius.
pub open spec fn next_circ_item(t: Tagged<CircWall>, tool: ToolType, f: PointerFrame) -> CircWall {
    if drag_point(f) is Some {
        let p = drag_point(f)->0;
        if tool == ToolType::Move && t.moving {
            CircWall { center: follow_point(f), ..t.item }
        } else if resize_tool(tool) && t.resize == Some(WResize::Radius) {
            CircWall {
                resize_point: p,
                radius: spec_isqrt(t.item.dist_sq(p.x as int, p.y as int)) as u32,
                ..t.item
            }
        } else {
            t.item
        }
    } else {
        t.item
    }
}

/// A circular wall after one frame.
pub open spec fn next_circ(
    t: Tagged<CircWall>,
    i: int,
    grabbed: Option<(ObjectKind, usize)>,
    handle: Option<usize>,
    tool: ToolType,
    f: PointerFrame,
) -> Tagged<CircWall> {
    Tagged {
        item: next_circ_item(t, tool, f),
        entity: t.entity,
        selected: next_selected(t.selected, ObjectKind::CircWall, i, grabbed, f),
        moving: next_moving(t.moving, ObjectKind::CircWall, i, grabbed, tool, f),
        resize: if f.just_released {
            None
        } else if handle == Some(i as usize) {
            Some(WResize::Radius)
        } else {
            t.resize
        },
    }
}

/// The first `n` entries of `s` that are not dropped, in order.
pub open spec fn kept<T>(s: Seq<T>, drop: Seq<bool>, n: int) -> Seq<T>
    decreases n,
{
    if n <= 0 {
        Seq::empty()
    } else if drop[n - 1] {
        kept(s, drop, n - 1)
    } else {
        kept(s, drop, n - 1).push(s[n - 1])
    }
}

/// How many of the first `n` entries are dropped.
pub open spec fn dropped_count(drop: Seq<bool>, n: int) -> int
    decreases n,
{
    if n <= 0 {
        0
    } else if drop[n - 1] {
        dropped_count(drop, n - 1) + 1
    } else {
        dropped_count(drop, n - 1)
    }
}

/// A release removes every rectangular wall that is one cell wide or tall.
pub open spec fn rect_drops(s: Seq<Tagged<RectWall>>, f: PointerFrame) -> Seq<bool> {
    Seq::new(
        s.len(),
        |i: int|
            f.just_released && (s[i].item.rect.min.x == s[i].item.rect.max.x
                || s[i].item.rect.min.y == s[i].item.rect.max.y),
    )
}

/// A release removes every circular wall of radius zero.
pub open spec fn circ_drops(s: Seq<Tagged<CircWall>>, f: PointerFrame) -> Seq<bool> {
    Seq::new(s.len(), |i: int| f.just_released && s[i].item.radius == 0)
}

/// How many walls a release removes.
pub open spec fn walls_dropped(s: SceneView, f: PointerFrame) -> int {
    dropped_count(rect_drops(s.rect_walls, f), s.rect_walls.len() as int) + dropped_count(
        circ_drops(s.circ_walls, f),
        s.circ_walls.len() as int,
    )
}

/// Where a click places an object of type `kind`: sources and microphones
/// on the exact cell, walls on the nearest cell.
pub open spec fn placed_at(tool: ToolType, f: PointerFrame, kind: PlaceType) -> Option<UVec2> {
    if press_active(f) && tool == ToolType::Place(kind) {
        if kind == PlaceType::Source || kind == PlaceType::Mic {
            f.exact
        } else {
            f.nearest
        }
    } else {
        None
    }
}

/// An object that has just been placed.
pub open spec fn fresh<T>(item: T, resize: Option<WResize>) -> Tagged<T> {
    Tagged { item, entity: None, selected: false, moving: false, resize }
}

/// The object placed by a click, if any, as a sequence of at most one.
pub open spec fn placed<T>(at: Option<UVec2>, item: spec_fn(UVec2) -> T, resize: Option<WResize>) -> Seq<Tagged<T>> {
    match at {
        Some(p) => seq![fresh(item(p), resize)],
        None => Seq::empty(),
    }
}

/// Every source or microphone of a list after one frame.
pub open spec fn mapped_markers(
    s: Seq<Tagged<Marker>>,
    kind: ObjectKind,
    g: Option<(ObjectKind, usize)>,
    tool: ToolType,
    f: PointerFrame,
) -> Seq<Tagged<Marker>> {
    Seq::new(s.len(), |i: int| next_marker(s[i], kind, i, g, tool, f))
}

/// Every rectangular wall after one frame, before a release removes any.
pub open spec fn mapped_rects(
    s: Seq<Tagged<RectWall>>,
    g: Option<(ObjectKind, usize)>,
    h: Option<(usize, WResize)>,
    tool: ToolType,
    f: PointerFrame,
) -> Seq<Tagged<RectWall>> {
    Seq::new(s.len(), |i: int| next_rect(s[i], i, g, h, tool, f))
}

/// Every circular wall after one frame, before a release removes any.
pub open spec fn mapped_circs(
    s: Seq<Tagged<CircWall>>,
    g: Option<(ObjectKind, usize)>,
    h: Option<usize>,
    tool: ToolType,
    f: PointerFrame,
) -> Seq<Tagged<CircWall>> {
    Seq::new(s.len(), |i: int| next_circ(s[i], i, g, h, tool, f))
}

/// What a click grabs lies within reach of the pointer: a selected or
/// grabbed object's position (a wall's center) is near the cell the search
/// used (the nearest cell, or the exact one for walls under the move tool),
/// a grabbed corner of a rectangular wall is near the nearest cell, and so
/// is a grabbed radius handle.
pub proof fn lemma_grab_is_within_reach(s: SceneView, tool: ToolType, f: PointerFrame)
    requires
        s.sources.len() <= usize::MAX,
        s.mics.len() <= usize::MAX,
        s.rect_walls.len() <= usize::MAX / 4,
        s.circ_walls.len() <= usize::MAX,
    ensures
        spec_grabbed(s, tool, f) matches Some((kind, i)) ==> {
            let p = f.nearest->0;
            let q = f.exact->0;
            &&& kind == ObjectKind::Source ==> i < s.sources.len() && f.nearest is Some
                && spec_is_near(
                marker_points(s.sources)[i as int],
                p.x as int,
                p.y as int,
            )
            &&& kind == ObjectKind::Mic ==> i < s.mics.len() && f.nearest is Some && spec_is_near(
                marker_points(s.mics)[i as int],
                p.x as int,
                p.y as int,
            )
            &&& kind == ObjectKind::RectWall ==> i < s.rect_walls.len() && (if tool
                == ToolType::Select {
                f.nearest is Some && spec_is_near(
                    s.rect_walls[i as int].item.rect.spec_center(),
                    p.x as int,
                    p.y as int,
                )
            } else {
                f.exact is Some && spec_is_near(
                    s.rect_walls[i as int].item.rect.spec_center(),
                    q.x as int,
                    q.y as int,
                )
            })
            &&& kind == ObjectKind::CircWall ==> i < s.circ_walls.len() && (if tool
                == ToolType::Select {
                f.nearest is Some && spec_is_near(
                    s.circ_walls[i as int].item.center,
                    p.x as int,
                    p.y as int,
                )
            } else {
                f.exact is Some && spec_is_near(
                    s.circ_walls[i as int].item.center,
                    q.x as int,
                    q.y as int,
                )
            })
        },
        spec_grabbed(s, tool, f) is Some ==> press_active(f) && (tool == ToolType::Select || tool
            == ToolType::Move),
        spec_rect_handle(s, tool, f) matches Some((i, c)) ==> i < s.rect_walls.len() && (c
            == WResize::TopLeft || c == WResize::TopRight || c == WResize::BottomLeft || c
            == WResize::BottomRight) && spec_is_near(
            s.rect_walls[i as int].item.spec_resize_point(c),
            f.nearest->0.x as int,
            f.nearest->0.y as int,
        ),
        spec_circ_handle(s, tool, f) matches Some(i) ==> i < s.circ_walls.len() && spec_is_near(
            s.circ_walls[i as int].item.resize_point,
            f.nearest->0.x as int,
            f.nearest->0.y as int,
        ),
{
    if let Some(p) = f.nearest {
        lemma_first_near_is_first(marker_points(s.sources), selected_flags(s.sources), p);
        lemma_first_near_is_first(marker_points(s.mics), selected_flags(s.mics), p);
        lemma_first_near_is_first(rect_centers(s.rect_walls), selected_flags(s.rect_walls), p);
        lemma_first_near_is_first(circ_centers(s.circ_walls), selected_flags(s.circ_walls), p);
        lemma_first_near_is_first(marker_points(s.sources), no_skip(s.sources.len() as int), p);
        lemma_first_near_is_first(marker_points(s.mics), no_skip(s.mics.len() as int), p);
        lemma_first_near_is_first(
            rect_handles(s.rect_walls),
            no_skip(4 * s.rect_walls.len() as int),
            p,
        );
        lemma_first_near_is_first(circ_handles(s.circ_walls), no_skip(s.circ_walls.len() as int), p);
        match spec_first_near(rect_handles(s.rect_walls), no_skip(4 * s.rect_walls.len() as int), p, 0) {
            Some(k) => {
                assert(rect_handles(s.rect_walls)[k as int] == s.rect_walls[k as int / 4].item.spec_resize_point(
                    corner(k as int % 4),
                ));
                assert((k / 4) as usize as int == k as int / 4);
                assert(k as int % 4 == (k % 4) as int);
            },
            None => {},
        }
    }
    if let Some(q) = f.exact {
        lemma_first_near_is_first(rect_centers(s.rect_walls), no_skip(s.rect_walls.len() as int), q);
        lemma_first_near_is_first(circ_centers(s.circ_walls), no_skip(s.circ_walls.len() as int), q);
    }
}

/// The entries of `s` that are kept are, in order, entries of `s` that
/// are not dropped, and there are as many as entries were not dropped.
pub proof fn lemma_kept<T>(s: Seq<T>, drop: Seq<bool>, n: int)
    requires
        0 <= n <= s.len(),
        n <= drop.len(),
    ensures
        kept(s, drop, n).len() == n - dropped_count(drop, n),
        0 <= dropped_count(drop, n) <= n,
        forall|i: int|
            0 <= i < kept(s, drop, n).len() ==> exists|j: int|
                0 <= j < n && !drop[j] && #[trigger] kept(s, drop, n)[i] == s[j],
        (forall|j: int| 0 <= j < n ==> !drop[j]) ==> kept(s, drop, n) == s.take(n),
    decreases n,
{
    if n > 0 {
        lemma_kept(s, drop, n - 1);
        let prev = kept(s, drop, n - 1);
        if !drop[n - 1] {
            assert forall|i: int| 0 <= i < kept(s, drop, n).len() implies exists|j: int|
                0 <= j < n && !drop[j] && #[trigger] kept(s, drop, n)[i] == s[j] by {
                if i < prev.len() {
                    assert(kept(s, drop, n)[i] == prev[i]);
                    let j = choose|j: int| 0 <= j < n - 1 && !drop[j] && #[trigger] prev[i] == s[j];
                    assert(0 <= j < n && !drop[j] && kept(s, drop, n)[i] == s[j]);
                } else {
                    assert(kept(s, drop, n)[i] == s[n - 1]);
                }
            }
            if forall|j: int| 0 <= j < n ==> !drop[j] {
                assert(kept(s, drop, n) =~= s.take(n));
            }
        }
    } else {
        assert(kept(s, drop, n) =~= s.take(n));
    }
}

/// A release that comes without a click ends every move and every resize
/// and removes every wall that has collapsed to one cell in width or height
/// or to radius zero: no source, microphone or wall of the next scene is
/// still grabbed, no wall of the next scene is collapsed, and every wall
/// that had not collapsed is still there.
pub proof fn lemma_release_cleans_up(s: SceneView, ids: ComponentIDs, tool: ToolType, f: PointerFrame)
    requires
        f.just_released,
        !f.just_pressed,
        !f.pressed,
        s.rect_walls.len() <= usize::MAX,
        s.circ_walls.len() <= usize::MAX,
    ensures
        forall|i: int|
            0 <= i < next_sources(s, ids, tool, f).len() ==> !(#[trigger] next_sources(
                s,
                ids,
                tool,
                f,
            )[i]).moving,
        forall|i: int|
            0 <= i < next_mics(s, ids, tool, f).len() ==> !(#[trigger] next_mics(
                s,
                ids,
                tool,
                f,
            )[i]).moving,
        forall|i: int|
            0 <= i < next_rect_walls(s, ids, tool, f).len() ==> {
                let w = #[trigger] next_rect_walls(s, ids, tool, f)[i];
                &&& !w.moving
                &&& w.resize is None
                &&& w.item.rect.min.x != w.item.rect.max.x
                &&& w.item.rect.min.y != w.item.rect.max.y
            },
        forall|i: int|
            0 <= i < next_circ_walls(s, ids, tool, f).len() ==> {
                let w = #[trigger] next_circ_walls(s, ids, tool, f)[i];
                &&& !w.moving
                &&& w.resize is None
                &&& w.item.radius != 0
            },
        next_rect_walls(s, ids, tool, f).len() == s.rect_walls.len() - dropped_count(
            rect_drops(s.rect_walls, f),
            s.rect_walls.len() as int,
        ),
        next_circ_walls(s, ids, tool, f).len() == s.circ_walls.len() - dropped_count(
            circ_drops(s.circ_walls, f),
            s.circ_walls.len() as int,
        ),
        walls_dropped(s, f) == (s.rect_walls.len() - next_rect_walls(s, ids, tool, f).len()) + (
        s.circ_walls.len() - next_circ_walls(s, ids, tool, f).len()),
{
    let g = spec_grabbed(s, tool, f);
    let hr = spec_rect_handle(s, tool, f);
    let hc = spec_circ_handle(s, tool, f);
    let mr = mapped_rects(s.rect_walls, g, hr, tool, f);
    let mc = mapped_circs(s.circ_walls, g, hc, tool, f);
    let dr = rect_drops(s.rect_walls, f);
    let dc = circ_drops(s.circ_walls, f);
    lemma_kept(mr, dr, s.rect_walls.len() as int);
    lemma_kept(mc, dc, s.circ_walls.len() as int);
    assert(next_sources(s, ids, tool, f) =~= mapped_markers(s.sources, ObjectKind::Source, g, tool, f));
    assert(next_mics(s, ids, tool, f) =~= mapped_markers(s.mics, ObjectKind::Mic, g, tool, f));
    assert(next_rect_walls(s, ids, tool, f) =~= kept(mr, dr, s.rect_walls.len() as int));
    assert(next_circ_walls(s, ids, tool, f) =~= kept(mc, dc, s.circ_walls.len() as int));
    assert forall|i: int| 0 <= i < next_rect_walls(s, ids, tool, f).len() implies {
        let w = #[trigger] next_rect_walls(s, ids, tool, f)[i];
        &&& !w.moving
        &&& w.resize is None
        &&& w.item.rect.min.x != w.item.rect.max.x
        &&& w.item.rect.min.y != w.item.rect.max.y
    } by {
        let k = kept(mr, dr, s.rect_walls.len() as int);
        let j = choose|j: int| 0 <= j < s.rect_walls.len() && !dr[j] && #[trigger] k[i] == mr[j];
        assert(k[i] == mr[j]);
    }
    assert forall|i: int| 0 <= i < next_circ_walls(s, ids, tool, f).len() implies {
        let w = #[trigger] next_circ_walls(s, ids, tool, f)[i];
        &&& !w.moving
        &&& w.resize is None
        &&& w.item.radius != 0
    } by {
        let k = kept(mc, dc, s.circ_walls.len() as int);
        let j = choose|j: int| 0 <= j < s.circ_walls.len() && !dc[j] && #[trigger] k[i] == mc[j];
        assert(k[i] == mc[j]);
    }
}

/// A click selects the object it grabs and nothing else: after a click with
/// the tools enabled, a selected source, microphone or wall of the next
/// scene is the grabbed one (objects placed by the click are not selected),
/// and with the move tool the grabbed object is moving.
pub proof fn lemma_click_selects_only_the_grabbed(
    s: SceneView,
    ids: ComponentIDs,
    tool: ToolType,
    f: PointerFrame,
)
    requires
        press_active(f),
        !f.just_released,
    ensures
        forall|i: int|
            0 <= i < s.sources.len() ==> ((#[trigger] next_sources(s, ids, tool, f)[i]).selected
                <==> spec_grabbed(s, tool, f) == Some((ObjectKind::Source, i as usize))),
        forall|i: int|
            0 <= i < s.mics.len() ==> ((#[trigger] next_mics(s, ids, tool, f)[i]).selected
                <==> spec_grabbed(s, tool, f) == Some((ObjectKind::Mic, i as usize))),
        forall|i: int|
            s.sources.len() <= i < next_sources(s, ids, tool, f).len() ==> !(
            #[trigger] next_sources(s, ids, tool, f)[i]).selected,
        tool == ToolType::Move ==> forall|i: int|
            0 <= i < s.sources.len() && spec_grabbed(s, tool, f) == Some(
                (ObjectKind::Source, i as usize),
            ) ==> (#[trigger] next_sources(s, ids, tool, f)[i]).moving,
        tool == ToolType::Select ==> forall|i: int|
            0 <= i < s.sources.len() ==> (#[trigger] next_sources(s, ids, tool, f)[i]).moving
                == s.sources[i].moving,
{
}

/// A click with the place tool puts exactly one new object of the chosen
/// type at the end of its list, where the pointer is, with the next id of
/// its kind, not selected and not yet owned; any other click places
/// nothing. A new wall has its drawing handle grabbed.
pub proof fn lemma_click_places_one_object(s: SceneView, ids: ComponentIDs, tool: ToolType, f: PointerFrame)
    ensures
        press_active(f) && tool == ToolType::Place(PlaceType::Source) && f.exact is Some ==> {
            let n = next_sources(s, ids, tool, f);
            let q = f.exact->0;
            &&& n.len() == s.sources.len() + 1
            &&& n.last().item == (Marker { x: q.x, y: q.y, id: ids.next_source_id() })
            &&& n.last().entity is None && !n.last().selected && !n.last().moving
        },
        press_active(f) && tool == ToolType::Place(PlaceType::Mic) && f.exact is Some ==> {
            let n = next_mics(s, ids, tool, f);
            let q = f.exact->0;
            &&& n.len() == s.mics.len() + 1
            &&& n.last().item == (Marker { x: q.x, y: q.y, id: ids.next_mic_id() })
            &&& n.last().entity is None && !n.last().selected && !n.last().moving
        },
        press_active(f) && tool == ToolType::Place(PlaceType::RectWall) && f.nearest is Some ==> {
            let w = next_rect_walls(s, ids, tool, f).last();
            let p = f.nearest->0;
            &&& w.item.rect == (WRect { min: p, max: p })
            &&& w.item.id == ids.next_wall_id()
            &&& w.item.draw_pin == p
            &&& w.resize == Some(WResize::Draw)
            &&& w.entity is None && !w.selected
        },
        press_active(f) && tool == ToolType::Place(PlaceType::CircWall) && f.nearest is Some ==> {
            let w = next_circ_walls(s, ids, tool, f).last();
            let p = f.nearest->0;
            &&& w.item.center == p && w.item.radius == 0
            &&& w.item.id == ids.next_wall_id()
            &&& w.resize == Some(WResize::Radius)
            &&& w.entity is None && !w.selected
        },
        !(tool is Place) || !press_active(f) ==> next_sources(s, ids, tool, f).len()
            == s.sources.len() && next_mics(s, ids, tool, f).len() == s.mics.len(),
        press_active(f) && tool == ToolType::Place(PlaceType::Source) && f.exact is Some
            ==> placed_count(tool, f, PlaceType::Source) == 1,
        press_active(f) && tool == ToolType::Place(PlaceType::Mic) && f.exact is Some
            ==> placed_count(tool, f, PlaceType::Mic) == 1,
        press_active(f) && (tool == ToolType::Place(PlaceType::RectWall) || tool == ToolType::Place(
            PlaceType::CircWall,
        )) && f.nearest is Some ==> placed_count(tool, f, PlaceType::RectWall) + placed_count(
            tool,
            f,
            PlaceType::CircWall,
        ) == 1,
        !press_active(f) ==> placed_count(tool, f, PlaceType::Source) == 0 && placed_count(
            tool,
            f,
            PlaceType::Mic,
        ) == 0 && placed_count(tool, f, PlaceType::RectWall) == 0 && placed_count(
            tool,
            f,
            PlaceType::CircWall,
        ) == 0,
{
}

/// The sources after one frame.
pub open spec fn next_sources(s: SceneView, ids: ComponentIDs, tool: ToolType, f: PointerFrame) -> Seq<Tagged<Marker>> {
    mapped_markers(s.sources, ObjectKind::Source, spec_grabbed(s, tool, f), tool, f) + placed(
        placed_at(tool, f, PlaceType::Source),
        |p: UVec2| Marker { x: p.x, y: p.y, id: ids.next_source_id() },
        None,
    )
}

/// The microphones after one frame.
pub open spec fn next_mics(s: SceneView, ids: ComponentIDs, tool: ToolType, f: PointerFrame) -> Seq<Tagged<Marker>> {
    mapped_markers(s.mics, ObjectKind::Mic, spec_grabbed(s, tool, f), tool, f) + placed(
        placed_at(tool, f, PlaceType::Mic),
        |p: UVec2| Marker { x: p.x, y: p.y, id: ids.next_mic_id() },
        None,
    )
}

/// The rectangular walls after one frame: those a release removes are gone,
/// and a wall placed by the click comes last, being drawn from its pin.
pub open spec fn next_rect_walls(s: SceneView, ids: ComponentIDs, tool: ToolType, f: PointerFrame) -> Seq<Tagged<RectWall>> {
    let mapped = mapped_rects(s.rect_walls, spec_grabbed(s, tool, f), spec_rect_handle(s, tool, f), tool, f);
    kept(mapped, rect_drops(s.rect_walls, f), s.rect_walls.len() as int) + placed(
        placed_at(tool, f, PlaceType::RectWall),
        |p: UVec2| RectWall {
            rect: WRect { min: p, max: p },
            is_hollow: f.wall_is_hollow,
            reflection_factor: f.wall_reflection_factor,
            id: ids.next_wall_id(),
            draw_pin: p,
        },
        Some(WResize::Draw),
    )
}

/// The circular walls after one frame: those a release removes are gone,
/// and a wall placed by the click comes last, with radius zero and its
/// radius handle grabbed.
pub open spec fn next_circ_walls(s: SceneView, ids: ComponentIDs, tool: ToolType, f: PointerFrame) -> Seq<Tagged<CircWall>> {
    let mapped = mapped_circs(s.circ_walls, spec_grabbed(s, tool, f), spec_circ_handle(s, tool, f), tool, f);
    kept(mapped, circ_drops(s.circ_walls, f), s.circ_walls.len() as int) + placed(
        placed_at(tool, f, PlaceType::CircWall),
        |p: UVec2| CircWall {
            center: p,
            radius: 0,
            is_hollow: f.wall_is_hollow,
            reflection_factor: f.wall_reflection_factor,
            open_circ_segment: 0,
            rotation_angle: 0,
            id: ids.next_wall_id(),
            resize_point: p,
        },
        Some(WResize::Radius),
    )
}

/// One if the click places an object of type `kind`.
pub open spec fn placed_count(tool: ToolType, f: PointerFrame, kind: PlaceType) -> int {
    if placed_at(tool, f, kind) is Some {
        1
    } else {
        0
    }
}

/// The cells of the frame lie in the simulated area.
pub open spec fn frame_fits(f: PointerFrame) -> bool {
    &&& f.nearest matches Some(p) ==> p.x < SIMULATION_WIDTH && p.y < SIMULATION_HEIGHT
    &&& f.exact matches Some(q) ==> q.x < SIMULATION_WIDTH && q.y < SIMULATION_HEIGHT
}

/// A held button does not drive a wall out of what its operations can
/// compute: a moved rectangular wall lies in the simulated area, a handle
/// can be dragged without passing zero, and snapped corners stay apart.
pub open spec fn rect_drag_fits(t: Tagged<RectWall>, tool: ToolType, f: PointerFrame) -> bool {
    drag_point(f) is Some ==> {
        let p = drag_point(f)->0;
        &&& (tool == ToolType::Move && t.moving) ==> {
            let w1 = spec_centered(t.item, p.x as int, p.y as int);
            &&& t.item.in_simulation()
            &&& f.ctrl ==> w1.rect.max.x >= 1 && w1.rect.max.y >= 1
        }
        &&& (resize_tool(tool) && t.resize is Some) ==> {
            let w1 = RectWall { rect: t.item.spec_resized(t.resize->0, p.x as int, p.y as int), ..t.item };
            &&& t.item.can_resize(t.resize->0)
            &&& f.ctrl ==> w1.rect.max.x >= 1 && w1.rect.max.y >= 1 && spec_snap_to_grid(
                w1.rect.max.x as int,
            ) >= 1 && spec_snap_to_grid(w1.rect.max.y as int) >= 1
        }
    }
}

/// The conditions under which a frame can be handled: the scene fits, the
/// pointer is in the simulated area, the id counters have room, a release
/// removes no more walls than ids were handed out, and dragged walls fit.
pub open spec fn step_fits(s: SceneView, ids: ComponentIDs, tool: ToolType, f: PointerFrame) -> bool {
    &&& scene_fits(s)
    &&& frame_fits(f)
    &&& s.rect_walls.len() <= usize::MAX / 4
    &&& ids.next_mic_id() < usize::MAX
    &&& ids.next_source_id() < usize::MAX
    &&& ids.next_wall_id() < usize::MAX
    &&& walls_dropped(s, f) <= ids.next_wall_id() + placed_count(tool, f, PlaceType::RectWall)
        + placed_count(tool, f, PlaceType::CircWall)
    &&& forall|i: int| 0 <= i < s.rect_walls.len() ==> rect_drag_fits(#[trigger] s.rect_walls[i], tool, f)
}

fn is_grabbed(grabbed: Option<(ObjectKind, usize)>, kind: ObjectKind, i: usize) -> (b: bool)
    ensures
        b == (grabbed == Some((kind, i))),
{
    match grabbed {
        Some((k, j)) => k == kind && j == i,
        None => false,
    }
}

fn is_resize_tool(tool: ToolType) -> (b: bool)
    ensures
        b == resize_tool(tool),
{
    match tool {
        ToolType::Place(PlaceType::RectWall) => true,
        ToolType::Place(PlaceType::CircWall) => true,
        ToolType::ResizeWall => true,
        _ => false,
    }
}

fn step_marker(
    t: Tagged<Marker>,
    kind: ObjectKind,
    i: usize,
    grabbed: Option<(ObjectKind, usize)>,
    tool: ToolType,
    f: &PointerFrame,
) -> (r: Tagged<Marker>)
    requires
        frame_fits(*f),
    ensures
        r == next_marker(t, kind, i as int, grabbed, tool, *f),
{
    let mut item = t.item;
    if f.pressed && f.tools_enabled && tool == ToolType::Move && t.moving {
        if let Some(p) = f.nearest {
            if f.ctrl {
                item = Marker { x: snap_to_grid(p.x), y: snap_to_grid(p.y), id: t.item.id };
            } else {
                item = Marker { x: p.x, y: p.y, id: t.item.id };
            }
        }
    }
    let selected = if f.just_pressed && f.tools_enabled && f.tool_use_enabled {
        is_grabbed(grabbed, kind, i)
    } else {
        t.selected
    };
    let moving = if f.just_released {
        false
    } else if tool == ToolType::Move && is_grabbed(grabbed, kind, i) {
        true
    } else {
        t.moving
    };
    Tagged { item, entity: t.entity, selected, moving, resize: t.resize }
}

/// A rectangular wall of a scene that fits.
pub open spec fn rect_fits(t: Tagged<RectWall>) -> bool {
    &&& t.item.rect.is_ordered()
    &&& t.item.rect.min.x < rect_limit()
    &&& t.item.rect.min.y < rect_limit()
    &&& t.item.rect.max.x <= rect_limit()
    &&& t.item.rect.max.y <= rect_limit()
    &&& t.item.draw_pin.x <= rect_limit()
    &&& t.item.draw_pin.y <= rect_limit()
    &&& t.resize != Some(WResize::Radius)
}

/// A circular wall of a scene that fits.
pub open spec fn circ_fits(t: Tagged<CircWall>) -> bool {
    &&& t.item.center.x <= axis_limit()
    &&& t.item.center.y <= axis_limit()
    &&& t.item.radius < 4096
    &&& (t.resize is None || t.resize == Some(WResize::Radius) || t.resize == Some(WResize::Menu))
}

/// A moving rectangular wall centered on `p`, its corners snapped with
/// `snap`.
fn move_rect(w: RectWall, p: UVec2, snap: bool) -> (r: RectWall)
    requires
        w.in_simulation(),
        p.x < SIMULATION_WIDTH,
        p.y < SIMULATION_HEIGHT,
        snap ==> spec_centered(w, p.x as int, p.y as int).rect.max.x >= 1 && spec_centered(
            w,
            p.x as int,
            p.y as int,
        ).rect.max.y >= 1,
    ensures
        r == (if snap {
            RectWall {
                rect: spec_snapped_corners(spec_centered(w, p.x as int, p.y as int), false),
                ..spec_centered(w, p.x as int, p.y as int)
            }
        } else {
            spec_centered(w, p.x as int, p.y as int)
        }),
        r.rect.is_ordered(),
        r.rect.min.x < rect_limit() && r.rect.min.y < rect_limit(),
        r.rect.max.x <= rect_limit() && r.rect.max.y <= rect_limit(),
{
    let mut v = w;
    v.set_center(p.x, p.y);
    assert(v.rect == spec_centered(w, p.x as int, p.y as int).rect);
    assert(v == spec_centered(w, p.x as int, p.y as int));
    if snap {
        proof {
            lemma_snapped_within_limit(v, false);
        }
        snap_corners_to_grid(&mut v, false);
    }
    v
}

/// A rectangular wall with handle `h` dragged to `p`, its corners snapped
/// with `snap`.
fn resize_rect(w: RectWall, h: WResize, p: UVec2, snap: bool) -> (r: RectWall)
    requires
        w.rect.is_ordered(),
        w.rect.min.x < rect_limit() && w.rect.min.y < rect_limit(),
        w.rect.max.x <= rect_limit() && w.rect.max.y <= rect_limit(),
        w.draw_pin.x <= rect_limit() && w.draw_pin.y <= rect_limit(),
        p.x < SIMULATION_WIDTH,
        p.y < SIMULATION_HEIGHT,
        w.can_resize(h),
        snap ==> {
            let w1 = RectWall { rect: w.spec_resized(h, p.x as int, p.y as int), ..w };
            w1.rect.max.x >= 1 && w1.rect.max.y >= 1 && spec_snap_to_grid(w1.rect.max.x as int)
                >= 1 && spec_snap_to_grid(w1.rect.max.y as int) >= 1
        },
    ensures
        r == (if snap {
            RectWall {
                rect: spec_snapped_corners(
                    RectWall { rect: w.spec_resized(h, p.x as int, p.y as int), ..w },
                    true,
                ),
                ..w
            }
        } else {
            RectWall { rect: w.spec_resized(h, p.x as int, p.y as int), ..w }
        }),
        r.rect.is_ordered(),
        r.rect.min.x < rect_limit() && r.rect.min.y < rect_limit(),
        r.rect.max.x <= rect_limit() && r.rect.max.y <= rect_limit(),
{
    let mut v = w;
    v.resize(&h, p.x, p.y);
    assert(v.rect.is_ordered());
    assert(v.rect.min.x < rect_limit() && v.rect.min.y < rect_limit());
    assert(v.rect.max.x <= rect_limit() && v.rect.max.y <= rect_limit());
    if snap {
        proof {
            lemma_snapped_within_limit(v, true);
        }
        snap_corners_to_grid(&mut v, true);
    }
    v
}

#[verifier::rlimit(40)]
fn step_rect(
    t: Tagged<RectWall>,
    i: usize,
    grabbed: Option<(ObjectKind, usize)>,
    handle: Option<(usize, WResize)>,
    tool: ToolType,
    f: &PointerFrame,
) -> (r: Tagged<RectWall>)
    requires
        frame_fits(*f),
        rect_fits(t),
        rect_drag_fits(t, tool, *f),
        handle matches Some((j, c)) ==> c != WResize::Radius,
    ensures
        r == next_rect(t, i as int, grabbed, handle, tool, *f),
        rect_fits(r),
{
    let mut w = t.item;
    if f.pressed && f.tools_enabled {
        if let Some(p) = f.nearest {
            if tool == ToolType::Move && t.moving {
                w = move_rect(t.item, p, f.ctrl);
            } else if is_resize_tool(tool) {
                match t.resize {
                    Some(h) => {
                        w = resize_rect(t.item, h, p, f.ctrl);
                    },
                    None => {},
                }
            }
        }
    }
    let selected = if f.just_pressed && f.tools_enabled && f.tool_use_enabled {
        is_grabbed(grabbed, ObjectKind::RectWall, i)
    } else {
        t.selected
    };
    let moving = if f.just_released {
        false
    } else if tool == ToolType::Move && is_grabbed(grabbed, ObjectKind::RectWall, i) {
        true
    } else {
        t.moving
    };
    let resize = if f.just_released {
        None
    } else {
        match handle {
            Some((j, c)) => if j == i {
                Some(c)
            } else {
                t.resize
            },
            None => t.resize,
        }
    };
    Tagged { item: w, entity: t.entity, selected, moving, resize }
}

/// Snapping the corners of a wall inside the coordinate limit keeps it
/// there.
proof fn lemma_snapped_within_limit(w: RectWall, inclusive_max: bool)
    requires
        w.rect.max.x >= 1,
        w.rect.max.y >= 1,
        w.rect.min.x <= w.rect.max.x <= rect_limit(),
        w.rect.min.y <= w.rect.max.y <= rect_limit(),
        inclusive_max ==> spec_snap_to_grid(w.rect.max.x as int) >= 1 && spec_snap_to_grid(
            w.rect.max.y as int,
        ) >= 1,
    ensures
        spec_snapped_corners(w, inclusive_max).min.x < rect_limit(),
        spec_snapped_corners(w, inclusive_max).min.y < rect_limit(),
        spec_snapped_corners(w, inclusive_max).max.x <= rect_limit(),
        spec_snapped_corners(w, inclusive_max).max.y <= rect_limit(),
{
    assert(spec_snap_to_grid(w.rect.max.x as int) <= rect_limit());
    assert(spec_snap_to_grid(w.rect.max.y as int) <= rect_limit());
    assert(spec_snap_to_grid(w.rect.min.x as int) <= rect_limit());
    assert(spec_snap_to_grid(w.rect.min.y as int) <= rect_limit());
    assert(spec_snap_to_grid(w.rect.min.x as int) >= 0);
    assert(spec_snap_to_grid(w.rect.min.y as int) >= 0);
}

fn step_circ(
    t: Tagged<CircWall>,
    i: usize,
    grabbed: Option<(ObjectKind, usize)>,
    handle: Option<usize>,
    tool: ToolType,
    f: &PointerFrame,
) -> (r: Tagged<CircWall>)
    requires
        frame_fits(*f),
        circ_fits(t),
    ensures
        r == next_circ(t, i as int, grabbed, handle, tool, *f),
        circ_fits(r),
{
    let mut w = t.item;
    if f.pressed && f.tools_enabled {
        if let Some(p) = f.nearest {
            if tool == ToolType::Move && t.moving {
                if f.ctrl {
                    w.set_center(snap_to_grid(p.x), snap_to_grid(p.y));
                } else {
                    w.set_center(p.x, p.y);
                }
            } else if is_resize_tool(tool) && t.resize == Some(WResize::Radius) {
                let ghost dx: int = w.center.x - p.x;
                let ghost dy: int = w.center.y - p.y;
                proof {
                    assert(dx * dx <= 4_000_000) by (nonlinear_arith)
                        requires
                            -2000 <= dx <= 2000,
                    ;
                    assert(dy * dy <= 4_000_000) by (nonlinear_arith)
                        requires
                            -2000 <= dy <= 2000,
                    ;
                    assert(0 <= dx * dx && 0 <= dy * dy) by (nonlinear_arith);
                    assert(w.radius * w.radius < 0x100_0000) by (nonlinear_arith)
                        requires
                            w.radius < 4096,
                    ;
                    assert((w.center.x - p.x) * (w.center.x - p.x) == dx * dx);
                    assert((w.center.y - p.y) * (w.center.y - p.y) == dy * dy);
                }
                w.resize(&WResize::Radius, p.x, p.y);
                proof {
                    lemma_isqrt_unique(w.radius as int, t.item.dist_sq(p.x as int, p.y as int));
                    let n = t.item.dist_sq(p.x as int, p.y as int);
                    assert(w.radius < 4096) by (nonlinear_arith)
                        requires
                            0 <= w.radius,
                            w.radius * w.radius <= n,
                            n < 0x100_0000,
                    ;
                }
            }
        }
    }
    let selected = if f.just_pressed && f.tools_enabled && f.tool_use_enabled {
        is_grabbed(grabbed, ObjectKind::CircWall, i)
    } else {
        t.selected
    };
    let moving = if f.just_released {
        false
    } else if tool == ToolType::Move && is_grabbed(grabbed, ObjectKind::CircWall, i) {
        true
    } else {
        t.moving
    };
    let resize = if f.just_released {
        None
    } else if handle == Some(i) {
        Some(WResize::Radius)
    } else {
        t.resize
    };
    Tagged { item: w, entity: t.entity, selected, moving, resize }
}

fn step_markers(
    list: &Vec<Tagged<Marker>>,
    kind: ObjectKind,
    grabbed: Option<(ObjectKind, usize)>,
    tool: ToolType,
    f: &PointerFrame,
) -> (v: Vec<Tagged<Marker>>)
    requires
        frame_fits(*f),
    ensures
        v@ == mapped_markers(list@, kind, grabbed, tool, *f),
{
    let mut v: Vec<Tagged<Marker>> = Vec::new();
    let mut i: usize = 0;
    while i < list.len()
        invariant
            i <= list.len(),
            frame_fits(*f),
            v@ == mapped_markers(list@, kind, grabbed, tool, *f).take(i as int),
        decreases list.len() - i,
    {
        v.push(step_marker(list[i], kind, i, grabbed, tool, f));
        i = i + 1;
        assert(v@ =~= mapped_markers(list@, kind, grabbed, tool, *f).take(i as int));
    }
    assert(v@ =~= mapped_markers(list@, kind, grabbed, tool, *f));
    v
}

fn step_rect_walls(
    list: &Vec<Tagged<RectWall>>,
    grabbed: Option<(ObjectKind, usize)>,
    handle: Option<(usize, WResize)>,
    tool: ToolType,
    f: &PointerFrame,
) -> (r: (Vec<Tagged<RectWall>>, usize))
    requires
        frame_fits(*f),
        forall|i: int| 0 <= i < list.len() ==> rect_fits(#[trigger] list@[i]),
        forall|i: int| 0 <= i < list.len() ==> rect_drag_fits(#[trigger] list@[i], tool, *f),
        handle matches Some((j, c)) ==> c != WResize::Radius,
    ensures
        forall|i: int| 0 <= i < r.0.len() ==> rect_fits(#[trigger] r.0@[i]),
        r.0@ == kept(
            mapped_rects(list@, grabbed, handle, tool, *f),
            rect_drops(list@, *f),
            list.len() as int,
        ),
        r.1 == dropped_count(rect_drops(list@, *f), list.len() as int),
{
    let ghost mapped = mapped_rects(list@, grabbed, handle, tool, *f);
    let ghost drops = rect_drops(list@, *f);
    let mut v: Vec<Tagged<RectWall>> = Vec::new();
    let mut count: usize = 0;
    let mut i: usize = 0;
    while i < list.len()
        invariant
            i <= list.len(),
            count <= i,
            frame_fits(*f),
            forall|i: int| 0 <= i < list.len() ==> rect_fits(#[trigger] list@[i]),
            forall|i: int| 0 <= i < list.len() ==> rect_drag_fits(#[trigger] list@[i], tool, *f),
            handle matches Some((j, c)) ==> c != WResize::Radius,
            forall|i: int| 0 <= i < v.len() ==> rect_fits(#[trigger] v@[i]),
            mapped == mapped_rects(list@, grabbed, handle, tool, *f),
            drops == rect_drops(list@, *f),
            v@ == kept(mapped, drops, i as int),
            count == dropped_count(drops, i as int),
        decreases list.len() - i,
    {
        let t = list[i];
        assert(rect_fits(list@[i as int]));
        assert(rect_drag_fits(list@[i as int], tool, *f));
        let next = step_rect(t, i, grabbed, handle, tool, f);
        if f.just_released && t.item.is_deletable() {
            count = count + 1;
        } else {
            v.push(next);
        }
        i = i + 1;
    }
    (v, count)
}

fn step_circ_walls(
    list: &Vec<Tagged<CircWall>>,
    grabbed: Option<(ObjectKind, usize)>,
    handle: Option<usize>,
    tool: ToolType,
    f: &PointerFrame,
) -> (r: (Vec<Tagged<CircWall>>, usize))
    requires
        frame_fits(*f),
        forall|i: int| 0 <= i < list.len() ==> circ_fits(#[trigger] list@[i]),
    ensures
        forall|i: int| 0 <= i < r.0.len() ==> circ_fits(#[trigger] r.0@[i]),
        r.0@ == kept(
            mapped_circs(list@, grabbed, handle, tool, *f),
            circ_drops(list@, *f),
            list.len() as int,
        ),
        r.1 == dropped_count(circ_drops(list@, *f), list.len() as int),
{
    let ghost mapped = mapped_circs(list@, grabbed, handle, tool, *f);
    let ghost drops = circ_drops(list@, *f);
    let mut v: Vec<Tagged<CircWall>> = Vec::new();
    let mut count: usize = 0;
    let mut i: usize = 0;
    while i < list.len()
        invariant
            i <= list.len(),
            count <= i,
            frame_fits(*f),
            forall|i: int| 0 <= i < list.len() ==> circ_fits(#[trigger] list@[i]),
            forall|i: int| 0 <= i < v.len() ==> circ_fits(#[trigger] v@[i]),
            mapped == mapped_circs(list@, grabbed, handle, tool, *f),
            drops == circ_drops(list@, *f),
            v@ == kept(mapped, drops, i as int),
            count == dropped_count(drops, i as int),
        decreases list.len() - i,
    {
        let t = list[i];
        assert(circ_fits(list@[i as int]));
        let next = step_circ(t, i, grabbed, handle, tool, f);
        if f.just_released && t.item.is_deletable() {
            count = count + 1;
        } else {
            v.push(next);
        }
        i = i + 1;
    }
    (v, count)
}

/// The rectangular wall and corner that a click with the resize tool grabs,
/// as `spec_rect_handle` describes.
pub fn find_rect_handle(scene: &Scene, tool: ToolType, f: &PointerFrame) -> (r: Option<(usize, WResize)>)
    requires
        scene.rect_walls.len() <= usize::MAX / 4,
    ensures
        r == spec_rect_handle(scene@, tool, *f),
        r matches Some((j, c)) ==> c != WResize::Radius,
{
    if f.just_pressed && f.tools_enabled && f.tool_use_enabled && tool == ToolType::ResizeWall {
        if let Some(p) = f.nearest {
            let points = rect_handles_of(&scene.rect_walls);
            let skip = no_skip_of(points.len());
            match first_near(&points, &skip, p) {
                Some(k) => {
                    let c = k % 4;
                    let h = if c == 0 {
                        WResize::TopLeft
                    } else if c == 1 {
                        WResize::TopRight
                    } else if c == 2 {
                        WResize::BottomLeft
                    } else {
                        WResize::BottomRight
                    };
                    return Some((k / 4, h));
                },
                None => return None,
            }
        }
    }
    None
}

/// The circular wall whose radius handle a click with the resize tool
/// grabs, as `spec_circ_handle` describes.
pub fn find_circ_handle(scene: &Scene, tool: ToolType, f: &PointerFrame) -> (r: Option<usize>)
    ensures
        r == spec_circ_handle(scene@, tool, *f),
{
    if f.just_pressed && f.tools_enabled && f.tool_use_enabled && tool == ToolType::ResizeWall {
        if let Some(p) = f.nearest {
            return first_near(&circ_handles_of(&scene.circ_walls), &no_skip_of(scene.circ_walls.len()), p);
        }
    }
    None
}

fn place_point(tool: ToolType, f: &PointerFrame, kind: PlaceType) -> (r: Option<UVec2>)
    ensures
        r == placed_at(tool, *f, kind),
{
    if f.just_pressed && f.tools_enabled && f.tool_use_enabled && tool == ToolType::Place(kind) {
        match kind {
            PlaceType::Source => f.exact,
            PlaceType::Mic => f.exact,
            _ => f.nearest,
        }
    } else {
        None
    }
}

fn give_back_wall_ids(ids: &mut ComponentIDs, n: usize)
    requires
        old(ids).next_wall_id() >= n,
    ensures
        final(ids).next_wall_id() == old(ids).next_wall_id() - n,
        final(ids).next_mic_id() == old(ids).next_mic_id(),
        final(ids).next_source_id() == old(ids).next_source_id(),
{
    let mut k: usize = 0;
    while k < n
        invariant
            k <= n,
            old(ids).next_wall_id() >= n,
            ids.next_wall_id() == old(ids).next_wall_id() - k,
            ids.next_mic_id() == old(ids).next_mic_id(),
            ids.next_source_id() == old(ids).next_source_id(),
        decreases n - k,
    {
        ids.decrement_wall_ids();
        k = k + 1;
    }
}

/// Handles one frame of mouse and keyboard input.
///
/// A left click with the tools enabled unselects every object, then, with
/// the select tool, selects the first object near the pointer that was not
/// selected before; with the move tool grabs the first object near it
/// (selecting it and marking it as moving); with the resize tool grabs the
/// first corner of a rectangular wall and the first radius handle of a
/// circular wall near it; with the place tool places a new object with a
/// new id, a new wall with its drawing handle grabbed. While the button is
/// held, moving objects follow the pointer (snapped to the grid with
/// control) and grabbed handles resize their walls. A release ends every
/// move and resize, removes every wall that has collapsed to one cell in
/// width or height or to radius zero, gives back one wall id for each, and
/// asks for the wall cache to be rebuilt. Space starts or pauses the
/// simulation, and the tool keys switch tools. All grabbing decisions are
/// taken on the scene as it was at the start of the frame.
pub fn button_step(
    scene: &mut Scene,
    ids: &mut ComponentIDs,
    tool: &mut (ToolType, PlaceType),
    is_running: &mut bool,
    frame: &PointerFrame,
) -> (events: StepEvents)
    requires
        step_fits(old(scene)@, *old(ids), old(tool).0, *frame),
    ensures
        final(scene)@.sources == next_sources(old(scene)@, *old(ids), old(tool).0, *frame),
        final(scene)@.mics == next_mics(old(scene)@, *old(ids), old(tool).0, *frame),
        final(scene)@.rect_walls == next_rect_walls(old(scene)@, *old(ids), old(tool).0, *frame),
        final(scene)@.circ_walls == next_circ_walls(old(scene)@, *old(ids), old(tool).0, *frame),
        scene_fits(final(scene)@),
        final(ids).next_source_id() == old(ids).next_source_id() + placed_count(
            old(tool).0,
            *frame,
            PlaceType::Source,
        ),
        final(ids).next_mic_id() == old(ids).next_mic_id() + placed_count(
            old(tool).0,
            *frame,
            PlaceType::Mic,
        ),
        final(ids).next_wall_id() == old(ids).next_wall_id() + placed_count(
            old(tool).0,
            *frame,
            PlaceType::RectWall,
        ) + placed_count(old(tool).0, *frame, PlaceType::CircWall) - walls_dropped(
            old(scene)@,
            *frame,
        ),
        *final(tool) == spec_tool_shortcuts(old(tool).0, old(tool).1, frame.keys, frame.ctrl),
        *final(is_running) == (*old(is_running) != frame.space),
        events == (StepEvents {
            update_walls: frame.just_released,
            collapse_header: frame.just_released && frame.tool_use_enabled,
        }),
{
    let ghost s0 = scene@;
    let ghost ids0 = *ids;
    let cur = tool.0;
    let grabbed = find_grabbed(scene, cur, frame);
    let rect_handle = find_rect_handle(scene, cur, frame);
    let circ_handle = find_circ_handle(scene, cur, frame);

    let mut sources = step_markers(&scene.sources, ObjectKind::Source, grabbed, cur, frame);
    if let Some(p) = place_point(cur, frame, PlaceType::Source) {
        let id = ids.get_new_source_id();
        sources.push(
            Tagged { item: Marker { x: p.x, y: p.y, id }, entity: None, selected: false, moving: false, resize: None },
        );
    }
    assert(sources@ =~= next_sources(s0, ids0, cur, *frame));

    let mut mics = step_markers(&scene.mics, ObjectKind::Mic, grabbed, cur, frame);
    if let Some(p) = place_point(cur, frame, PlaceType::Mic) {
        let id = ids.get_new_mic_id();
        mics.push(
            Tagged { item: Marker { x: p.x, y: p.y, id }, entity: None, selected: false, moving: false, resize: None },
        );
    }
    assert(mics@ =~= next_mics(s0, ids0, cur, *frame));

    proof {
        assert forall|i: int| 0 <= i < s0.rect_walls.len() implies rect_fits(#[trigger] s0.rect_walls[i]) by {
            assert(scene_fits(s0));
        }
        assert forall|i: int| 0 <= i < s0.circ_walls.len() implies circ_fits(#[trigger] s0.circ_walls[i]) by {
            assert(scene_fits(s0));
        }
    }
    let (mut rects, dropped_rects) = step_rect_walls(&scene.rect_walls, grabbed, rect_handle, cur, frame);
    if let Some(p) = place_point(cur, frame, PlaceType::RectWall) {
        let id = ids.get_new_wall_id();
        let w = RectWall::new(p.x, p.y, p.x, p.y, frame.wall_is_hollow, frame.wall_reflection_factor, id);
        rects.push(Tagged { item: w, entity: None, selected: false, moving: false, resize: Some(WResize::Draw) });
    }
    assert(rects@ =~= next_rect_walls(s0, ids0, cur, *frame));

    let (mut circs, dropped_circs) = step_circ_walls(&scene.circ_walls, grabbed, circ_handle, cur, frame);
    if let Some(p) = place_point(cur, frame, PlaceType::CircWall) {
        let id = ids.get_new_wall_id();
        let w = CircWall::new(p.x, p.y, 0, frame.wall_is_hollow, frame.wall_reflection_factor, id);
        circs.push(Tagged { item: w, entity: None, selected: false, moving: false, resize: Some(WResize::Radius) });
    }
    assert(circs@ =~= next_circ_walls(s0, ids0, cur, *frame));

    give_back_wall_ids(ids, dropped_rects);
    give_back_wall_ids(ids, dropped_circs);

    scene.sources = sources;
    scene.mics = mics;
    scene.rect_walls = rects;
    scene.circ_walls = circs;

    if frame.space {
        *is_running = !*is_running;
    }
    *tool = apply_tool_shortcuts(tool.0, tool.1, frame.keys, frame.ctrl);

    StepEvents {
        update_walls: frame.just_released,
        collapse_header: frame.just_released && frame.tool_use_enabled,
    }
}

/// A pasted copy of a rectangular wall: it gets the next wall id and its
/// center is moved five cells right and down, as far as the simulated area
/// allows.
pub fn pasted_rect_wall(w: RectWall, ids: &mut ComponentIDs) -> (r: RectWall)
    requires
        w.in_simulation(),
        old(ids).next_wall_id() < usize::MAX,
    ensures
        r == spec_centered(
            RectWall { id: old(ids).next_wall_id(), ..w },
            w.rect.spec_center().x + 5,
            w.rect.spec_center().y + 5,
        ),
        r.in_simulation(),
        final(ids).next_wall_id() == old(ids).next_wall_id() + 1,
        final(ids).next_mic_id() == old(ids).next_mic_id(),
        final(ids).next_source_id() == old(ids).next_source_id(),
{
    let mut copy = w;
    copy.id = ids.get_new_wall_id();
    let c = copy.get_center();
    copy.set_center(c.x + 5, c.y + 5);
    assert(copy.rect == spec_centered(
        RectWall { id: old(ids).next_wall_id(), ..w },
        w.rect.spec_center().x + 5,
        w.rect.spec_center().y + 5,
    ).rect);
    copy
}

/// A pasted copy of a circular wall: it gets the next wall id and its
/// center is moved five cells right and down.
pub fn pasted_circ_wall(w: CircWall, ids: &mut ComponentIDs) -> (r: CircWall)
    requires
        w.center.x + 5 <= u32::MAX,
        w.center.y + 5 <= u32::MAX,
        old(ids).next_wall_id() < usize::MAX,
    ensures
        r == (CircWall {
            id: old(ids).next_wall_id(),
            center: UVec2 { x: (w.center.x + 5) as u32, y: (w.center.y + 5) as u32 },
            ..w
        }),
        final(ids).next_wall_id() == old(ids).next_wall_id() + 1,
        final(ids).next_mic_id() == old(ids).next_mic_id(),
        final(ids).next_source_id() == old(ids).next_source_id(),
{
    let mut copy = w;
    copy.id = ids.get_new_wall_id();
    let c = copy.get_center();
    copy.set_center(c.x + 5, c.y + 5);
    copy
}

} // verus!

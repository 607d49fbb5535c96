//! What the side panels decide when one of their widgets is used: the quick
//! settings, the tool options, the tool panel, the preferences window and the
//! outline of the scene's objects.

use vstd::prelude::*;

use crate::components::wall::{menu_clamp, spec_menu_edited, CircWall, MenuCorner, RectWall};
use crate::math::constants::{SIMULATION_HEIGHT, SIMULATION_WIDTH};
use crate::simulation::grid::{cell_count, spec_cell_count};
use crate::ui::state::{PlaceType, ToolType};

verus! {

/// The part of the UI state that the quick settings and the tool options
/// read and change.
#[derive(Clone, Copy, Debug, PartialEq, Eq, Structural)]
pub struct PanelState {
    pub is_running: bool,
    pub show_plots: bool,
    pub render_abc_area: bool,
    pub tools_enabled: bool,
    pub current_tool: ToolType,
    pub cur_place_type: PlaceType,
}

/// What was used in the quick settings or the tool options in one frame.
#[derive(Clone, Copy, Debug, PartialEq, Eq, Structural)]
pub enum PanelEvent {
    /// Nothing was clicked.
    Idle,
    /// The start/stop button.
    StartStop,
    /// The reset button.
    Reset,
    /// The "Delete all" button.
    DeleteAll,
    /// The "Show plots" checkbox.
    ShowPlots,
    /// A choice in the tool options' list of objects to place.
    ChoosePlaceType(PlaceType),
}

/// What the owner of the scene has to do after a panel event.
#[derive(Clone, Copy, Debug, PartialEq, Eq, Structural)]
pub struct PanelAction {
    /// Reset the simulation, whatever the reset-on-change setting says.
    pub reset: bool,
    /// Remove every source, microphone and wall.
    pub despawn_all: bool,
    /// Replace every cell buffer by one of this many empty cells.
    pub reset_cells: Option<usize>,
    /// Rebuild the wall cache.
    pub update_walls: bool,
    /// Clear the microphones' records.
    pub clear_mic_records: bool,
}

/// No action at all.
pub open spec fn no_action() -> PanelAction {
    PanelAction {
        reset: false,
        despawn_all: false,
        reset_cells: None,
        update_walls: false,
        clear_mic_records: false,
    }
}

/// The place type after the event: the tool options offer the choice only
/// while the place tool is active and the boundary is not rendered.
pub open spec fn spec_next_place_type(ui: PanelState, ev: PanelEvent) -> PlaceType {
    match ev {
        PanelEvent::ChoosePlaceType(t) => if ui.current_tool is Place && !ui.render_abc_area {
            t
        } else {
            ui.cur_place_type
        },
        _ => ui.cur_place_type,
    }
}

/// The panel state after the event. While the place tool is active it
/// always places the chosen type of object.
pub open spec fn spec_panel_state(ui: PanelState, ev: PanelEvent) -> PanelState {
    let place = spec_next_place_type(ui, ev);
    PanelState {
        is_running: if ev == PanelEvent::StartStop {
            !ui.is_running
        } else {
            ui.is_running
        },
        show_plots: if ev == PanelEvent::ShowPlots {
            !ui.show_plots
        } else {
            ui.show_plots
        },
        current_tool: if ui.current_tool is Place {
            ToolType::Place(place)
        } else {
            ui.current_tool
        },
        cur_place_type: place,
        ..ui
    }
}

/// The start/stop button starts a paused simulation and pauses a running
/// one, and changes nothing else; pressing it twice gives the state back.
/// The "Show plots" checkbox toggles in the same way. No other event starts
/// or pauses the simulation.
pub proof fn lemma_start_stop_toggles(ui: PanelState, ev: PanelEvent)
    requires
        ui.current_tool is Place ==> ui.current_tool == ToolType::Place(ui.cur_place_type),
    ensures
        spec_panel_state(ui, PanelEvent::StartStop) == (PanelState {
            is_running: !ui.is_running,
            ..ui
        }),
        spec_panel_state(spec_panel_state(ui, PanelEvent::StartStop), PanelEvent::StartStop)
            == ui,
        spec_panel_state(ui, PanelEvent::ShowPlots) == (PanelState {
            show_plots: !ui.show_plots,
            ..ui
        }),
        spec_panel_state(spec_panel_state(ui, PanelEvent::ShowPlots), PanelEvent::ShowPlots)
            == ui,
        ev != PanelEvent::StartStop ==> spec_panel_state(ui, ev).is_running == ui.is_running,
{
}

/// What the owner has to do after the event.
pub open spec fn spec_panel_action(boundary_width: u32, ev: PanelEvent) -> PanelAction {
    match ev {
        PanelEvent::Reset => PanelAction { reset: true, ..no_action() },
        PanelEvent::DeleteAll => PanelAction {
            despawn_all: true,
            reset_cells: Some(spec_cell_count(boundary_width) as usize),
            update_walls: true,
            ..no_action()
        },
        PanelEvent::ShowPlots => PanelAction { clear_mic_records: true, ..no_action() },
        _ => no_action(),
    }
}

/// Handles one event of the quick settings and the tool options.
pub fn panel_step(ui: &mut PanelState, boundary_width: u32, ev: PanelEvent) -> (a: PanelAction)
    requires
        ev == PanelEvent::DeleteAll ==> spec_cell_count(boundary_width) <= u32::MAX,
    ensures
        *final(ui) == spec_panel_state(*old(ui), ev),
        a == spec_panel_action(boundary_width, ev),
        final(ui).current_tool is Place ==> final(ui).current_tool == ToolType::Place(
            final(ui).cur_place_type,
        ),
        final(ui).tools_enabled == old(ui).tools_enabled,
        final(ui).render_abc_area == old(ui).render_abc_area,
        final(ui).is_running == (old(ui).is_running != (ev == PanelEvent::StartStop)),
        final(ui).show_plots == (old(ui).show_plots != (ev == PanelEvent::ShowPlots)),
{
    let mut action = PanelAction {
        reset: false,
        despawn_all: false,
        reset_cells: None,
        update_walls: false,
        clear_mic_records: false,
    };
    match ev {
        PanelEvent::Idle => {},
        PanelEvent::StartStop => {
            ui.is_running = !ui.is_running;
        },
        PanelEvent::Reset => {
            action.reset = true;
        },
        PanelEvent::DeleteAll => {
            action.despawn_all = true;
            action.reset_cells = Some(cell_count(boundary_width));
            action.update_walls = true;
        },
        PanelEvent::ShowPlots => {
            ui.show_plots = !ui.show_plots;
            action.clear_mic_records = true;
        },
        PanelEvent::ChoosePlaceType(t) => {
            if matches!(ui.current_tool, ToolType::Place(_)) && !ui.render_abc_area {
                ui.cur_place_type = t;
            }
        },
    }
    if matches!(ui.current_tool, ToolType::Place(_)) {
        ui.current_tool = ToolType::Place(ui.cur_place_type);
    }
    action
}

/// The buttons of the tool panel.
#[derive(Clone, Copy, Debug, PartialEq, Eq, Structural)]
pub enum ToolButton {
    Select,
    Place,
    Move,
    ResizeWall,
}

/// The tool after a button of the tool panel was clicked.
pub open spec fn spec_tool_button(
    tool: ToolType,
    place: PlaceType,
    enabled: bool,
    b: ToolButton,
) -> ToolType {
    if !enabled {
        tool
    } else {
        match b {
            ToolButton::Select => ToolType::Select,
            ToolButton::Place => ToolType::Place(place),
            ToolButton::Move => ToolType::Move,
            ToolButton::ResizeWall => ToolType::ResizeWall,
        }
    }
}

/// The tool after a button of the tool panel was clicked: the place button
/// picks the place tool for the chosen type of object; while the tools are
/// disabled the buttons do nothing.
pub fn tool_panel_step(tool: ToolType, place: PlaceType, enabled: bool, b: ToolButton) -> (t:
    ToolType)
    ensures
        t == spec_tool_button(tool, place, enabled, b),
        !enabled ==> t == tool,
{
    if !enabled {
        return tool;
    }
    match b {
        ToolButton::Select => ToolType::Select,
        ToolButton::Place => ToolType::Place(place),
        ToolButton::Move => ToolType::Move,
        ToolButton::ResizeWall => ToolType::ResizeWall,
    }
}

/// The settings of the preferences window that the grid depends on.
#[derive(Clone, Copy, Debug, PartialEq, Eq, Structural)]
pub struct Preferences {
    pub boundary_width: u32,
    pub render_abc_area: bool,
    pub tools_enabled: bool,
}

/// What was changed in the preferences window.
#[derive(Clone, Copy, Debug, PartialEq, Eq, Structural)]
pub enum PreferencesEvent {
    /// The size of a cell (a floating-point value kept by the owner).
    CellSize,
    /// The "Show absorbing boundary" checkbox.
    RenderBoundary,
    /// The boundary-width slider, set to the given value.
    BoundaryWidth(u32),
    /// A wave file was loaded; the owner sets the cell size to its sample rate.
    WaveFile,
}

/// What the owner of the grid has to do after a preferences event.
#[derive(Clone, Copy, Debug, PartialEq, Eq, Structural)]
pub struct PreferencesAction {
    /// Reset the simulation.
    pub reset: bool,
    /// Replace the cells, the wall cache and the boundary cache by buffers of
    /// this many cells, and rebuild the boundary cache.
    pub buffer_len: Option<usize>,
    /// Make the image this many pixels wide and tall.
    pub pixel_side: Option<u32>,
}

/// The boundary-width slider's range.
pub open spec fn slider_width(v: int) -> int {
    if v < 2 {
        2
    } else if v > 200 {
        200
    } else {
        v
    }
}

/// The side of the image: the simulated area, with the boundary around it
/// while the boundary is rendered.
pub open spec fn spec_pixel_side(boundary_width: u32, render_abc_area: bool) -> int {
    if render_abc_area {
        SIMULATION_WIDTH + 2 * boundary_width
    } else {
        SIMULATION_WIDTH as int
    }
}

/// The preferences after an event. The tools are disabled exactly while the
/// boundary is rendered.
pub open spec fn spec_preferences(p: Preferences, ev: PreferencesEvent) -> Preferences {
    match ev {
        PreferencesEvent::RenderBoundary => Preferences {
            render_abc_area: !p.render_abc_area,
            tools_enabled: p.render_abc_area,
            ..p
        },
        PreferencesEvent::BoundaryWidth(v) => Preferences {
            boundary_width: slider_width(v as int) as u32,
            ..p
        },
        _ => p,
    }
}

/// What the owner has to do after a preferences event.
pub open spec fn spec_preferences_action(p: Preferences, ev: PreferencesEvent) -> PreferencesAction {
    let q = spec_preferences(p, ev);
    match ev {
        PreferencesEvent::CellSize => PreferencesAction {
            reset: true,
            buffer_len: None,
            pixel_side: None,
        },
        PreferencesEvent::WaveFile => PreferencesAction {
            reset: true,
            buffer_len: None,
            pixel_side: None,
        },
        PreferencesEvent::RenderBoundary => PreferencesAction {
            reset: false,
            buffer_len: None,
            pixel_side: Some(spec_pixel_side(q.boundary_width, q.render_abc_area) as u32),
        },
        PreferencesEvent::BoundaryWidth(_) => PreferencesAction {
            reset: false,
            buffer_len: Some(spec_cell_count(q.boundary_width) as usize),
            pixel_side: Some(spec_pixel_side(q.boundary_width, q.render_abc_area) as u32),
        },
    }
}

/// Handles one change in the preferences window.
pub fn preferences_step(p: &mut Preferences, ev: PreferencesEvent) -> (a: PreferencesAction)
    requires
        ev == PreferencesEvent::RenderBoundary ==> SIMULATION_WIDTH + 2 * old(p).boundary_width
            <= u32::MAX,
    ensures
        *final(p) == spec_preferences(*old(p), ev),
        a == spec_preferences_action(*old(p), ev),
        ev == PreferencesEvent::RenderBoundary ==> final(p).tools_enabled
            == !final(p).render_abc_area,
        ev matches PreferencesEvent::BoundaryWidth(b) ==> 2 <= final(p).boundary_width <= 200
            && a.buffer_len == Some(spec_cell_count(final(p).boundary_width) as usize),
{
    match ev {
        PreferencesEvent::CellSize => PreferencesAction {
            reset: true,
            buffer_len: None,
            pixel_side: None,
        },
        PreferencesEvent::WaveFile => PreferencesAction {
            reset: true,
            buffer_len: None,
            pixel_side: None,
        },
        PreferencesEvent::RenderBoundary => {
            p.render_abc_area = !p.render_abc_area;
            p.tools_enabled = !p.render_abc_area;
            let side = if p.render_abc_area {
                SIMULATION_WIDTH + 2 * p.boundary_width
            } else {
                SIMULATION_WIDTH
            };
            PreferencesAction { reset: false, buffer_len: None, pixel_side: Some(side) }
        },
        PreferencesEvent::BoundaryWidth(v) => {
            let b = if v < 2 {
                2
            } else if v > 200 {
                200
            } else {
                v
            };
            p.boundary_width = b;
            assert(spec_cell_count(b) <= u32::MAX) by (nonlinear_arith)
                requires
                    spec_cell_count(b) == (SIMULATION_WIDTH + 2 * b) * (SIMULATION_HEIGHT + 2
                        * b),
                    b <= 200,
                    SIMULATION_WIDTH == 400,
                    SIMULATION_HEIGHT == 400,
            ;
            let len = cell_count(b);
            let side = if p.render_abc_area {
                SIMULATION_WIDTH + 2 * b
            } else {
                SIMULATION_WIDTH
            };
            PreferencesAction { reset: false, buffer_len: Some(len), pixel_side: Some(side) }
        },
    }
}

/// The tool panel's buttons: while the tools are enabled each button picks
/// its own tool (the place button placing the chosen type of object), and
/// while they are disabled no button changes the tool.
pub proof fn lemma_tool_buttons_pick_their_tool(tool: ToolType, place: PlaceType, b: ToolButton)
    ensures
        spec_tool_button(tool, place, false, b) == tool,
        spec_tool_button(tool, place, true, ToolButton::Select) == ToolType::Select,
        spec_tool_button(tool, place, true, ToolButton::Place) == ToolType::Place(place),
        spec_tool_button(tool, place, true, ToolButton::Move) == ToolType::Move,
        spec_tool_button(tool, place, true, ToolButton::ResizeWall) == ToolType::ResizeWall,
{
}

/// Changing the boundary keeps the grid and the image in step: the
/// boundary width stays in `2..=200`, the buffers get one entry per cell of
/// the full grid `(400 + 2b)²`, and a rendered boundary makes the image one
/// pixel per cell of the full grid (an image of the simulated area alone
/// otherwise). The checkbox turns the rendered boundary on and off and the
/// tools the other way round; two clicks give the preferences back.
pub proof fn lemma_preferences_keep_grid_and_image_in_step(p: Preferences, v: u32)
    requires
        2 <= p.boundary_width <= 200,
    ensures
        ({
            let q = spec_preferences(p, PreferencesEvent::BoundaryWidth(v));
            let a = spec_preferences_action(p, PreferencesEvent::BoundaryWidth(v));
            &&& 2 <= q.boundary_width <= 200
            &&& (2 <= v <= 200 ==> q.boundary_width == v)
            &&& a.buffer_len == Some(
                ((SIMULATION_WIDTH + 2 * q.boundary_width) * (SIMULATION_HEIGHT + 2
                    * q.boundary_width)) as usize,
            )
            &&& (q.render_abc_area ==> a.buffer_len == Some(
                (a.pixel_side->0 * a.pixel_side->0) as usize,
            ))
            &&& (!q.render_abc_area ==> a.pixel_side == Some(SIMULATION_WIDTH))
            &&& q.render_abc_area == p.render_abc_area && q.tools_enabled == p.tools_enabled
        }),
        ({
            let q = spec_preferences(p, PreferencesEvent::RenderBoundary);
            let a = spec_preferences_action(p, PreferencesEvent::RenderBoundary);
            &&& q.render_abc_area == !p.render_abc_area
            &&& q.tools_enabled == p.render_abc_area
            &&& q.boundary_width == p.boundary_width
            &&& a.buffer_len is None
            &&& a.pixel_side == Some(
                (if q.render_abc_area {
                    SIMULATION_WIDTH + 2 * p.boundary_width
                } else {
                    SIMULATION_WIDTH as int
                }) as u32,
            )
            &&& spec_preferences(q, PreferencesEvent::RenderBoundary) == (Preferences {
                tools_enabled: !p.render_abc_area,
                ..p
            })
        }),
        spec_preferences(p, PreferencesEvent::CellSize) == p && spec_preferences_action(
            p,
            PreferencesEvent::CellSize,
        ).reset,
{
}

/// The kinds of rows of the outline.
#[derive(Clone, Copy, Debug, PartialEq, Eq, Structural)]
pub enum OutlineKind {
    Source,
    Mic,
    RectWall,
    CircWall,
}

/// What was changed in a row of the outline.
#[derive(Clone, Copy, Debug, PartialEq, Eq, Structural)]
pub enum OutlineEvent {
    /// A coordinate of the object's position or corners.
    Coordinate,
    /// The radius of a circular wall.
    Radius,
    /// The open segment or the rotation of a circular wall.
    Angle,
    /// A setting of a source's signal.
    Signal,
    /// The reflection factor of a wall.
    ReflectionFactor,
    /// The "Hollow" checkbox of a wall.
    Hollow,
    /// The row's delete button.
    Delete,
}

/// What the owner has to do after an outline event.
#[derive(Clone, Copy, Debug, PartialEq, Eq, Structural)]
pub struct OutlineAction {
    /// Tag the wall as being resized from the menu.
    pub tag_menu: bool,
    /// Reset the simulation (as far as the reset-on-change setting allows).
    pub reset: bool,
    /// Rebuild the wall cache.
    pub update_walls: bool,
    /// Remove the object.
    pub despawn: bool,
}

/// The action of an outline event: a wall whose geometry is edited is
/// tagged as resized from the menu; every change of a source or a wall
/// resets the simulation (a microphone's position does not); a hollow
/// toggle or a deleted wall rebuilds the wall cache.
pub open spec fn spec_outline_action(kind: OutlineKind, ev: OutlineEvent) -> OutlineAction {
    let wall = kind == OutlineKind::RectWall || kind == OutlineKind::CircWall;
    let geometry = ev == OutlineEvent::Coordinate || (kind == OutlineKind::CircWall && (ev
        == OutlineEvent::Radius || ev == OutlineEvent::Angle));
    OutlineAction {
        tag_menu: wall && geometry,
        reset: if kind == OutlineKind::Mic {
            false
        } else if kind == OutlineKind::Source {
            ev == OutlineEvent::Coordinate || ev == OutlineEvent::Signal
        } else {
            geometry || ev == OutlineEvent::ReflectionFactor || ev == OutlineEvent::Hollow || ev
                == OutlineEvent::Delete
        },
        update_walls: wall && (ev == OutlineEvent::Hollow || ev == OutlineEvent::Delete),
        despawn: ev == OutlineEvent::Delete,
    }
}

/// What the outline's events do, row kind by row kind: only the delete
/// button removes an object; only a wall's geometry (its corners, center,
/// radius or angles) tags it as resized from the menu; only a wall's hollow
/// checkbox or delete button rebuilds the wall cache; editing a microphone
/// asks for nothing; a source's position or signal resets the simulation,
/// and so does every change to a wall.
pub proof fn lemma_outline_actions(kind: OutlineKind, ev: OutlineEvent)
    ensures
        spec_outline_action(kind, ev).despawn == (ev == OutlineEvent::Delete),
        spec_outline_action(kind, ev).tag_menu ==> (kind == OutlineKind::RectWall || kind
            == OutlineKind::CircWall) && ev != OutlineEvent::Delete && ev != OutlineEvent::Hollow
            && ev != OutlineEvent::ReflectionFactor,
        (kind == OutlineKind::RectWall || kind == OutlineKind::CircWall) && ev
            == OutlineEvent::Coordinate ==> spec_outline_action(kind, ev).tag_menu,
        kind == OutlineKind::CircWall && (ev == OutlineEvent::Radius || ev == OutlineEvent::Angle)
            ==> spec_outline_action(kind, ev).tag_menu,
        spec_outline_action(kind, ev).update_walls == ((kind == OutlineKind::RectWall || kind
            == OutlineKind::CircWall) && (ev == OutlineEvent::Hollow || ev == OutlineEvent::Delete)),
        kind == OutlineKind::Mic ==> !spec_outline_action(kind, ev).reset
            && !spec_outline_action(kind, ev).tag_menu && !spec_outline_action(
            kind,
            ev,
        ).update_walls,
        kind == OutlineKind::Source ==> spec_outline_action(kind, ev).reset == (ev
            == OutlineEvent::Coordinate || ev == OutlineEvent::Signal),
        (kind == OutlineKind::RectWall || kind == OutlineKind::CircWall) && (ev
            == OutlineEvent::Coordinate || ev == OutlineEvent::ReflectionFactor || ev
            == OutlineEvent::Hollow || ev == OutlineEvent::Delete) ==> spec_outline_action(
            kind,
            ev,
        ).reset,
{
}

/// A typed coordinate of a circular wall's center stays in the simulated
/// area and is taken as typed when it lies there; a typed radius stays in
/// `1..=1000` and is taken as typed when it lies there; nothing else of the
/// wall changes.
pub proof fn lemma_circ_edits_keep_range(w: CircWall, v: int)
    requires
        0 <= v,
    ensures
        spec_circ_edited(w, CircField::CenterX, v).center.x < SIMULATION_WIDTH,
        v < SIMULATION_WIDTH ==> spec_circ_edited(w, CircField::CenterX, v).center.x == v,
        spec_circ_edited(w, CircField::CenterX, v).center.y == w.center.y,
        spec_circ_edited(w, CircField::CenterY, v).center.y < SIMULATION_HEIGHT,
        v < SIMULATION_HEIGHT ==> spec_circ_edited(w, CircField::CenterY, v).center.y == v,
        1 <= spec_circ_edited(w, CircField::Radius, v).radius <= 1000,
        1 <= v <= 1000 ==> spec_circ_edited(w, CircField::Radius, v).radius == v,
        spec_circ_edited(w, CircField::Radius, v).center == w.center,
{
}

/// The action of an outline event, as `spec_outline_action` describes.
pub fn outline_action(kind: OutlineKind, ev: OutlineEvent) -> (a: OutlineAction)
    ensures
        a == spec_outline_action(kind, ev),
{
    let wall = matches!(kind, OutlineKind::RectWall | OutlineKind::CircWall);
    let geometry = matches!(ev, OutlineEvent::Coordinate) || (matches!(kind, OutlineKind::CircWall)
        && matches!(ev, OutlineEvent::Radius | OutlineEvent::Angle));
    let reset = match kind {
        OutlineKind::Mic => false,
        OutlineKind::Source => matches!(ev, OutlineEvent::Coordinate | OutlineEvent::Signal),
        _ => geometry || matches!(
            ev,
            OutlineEvent::ReflectionFactor | OutlineEvent::Hollow | OutlineEvent::Delete
        ),
    };
    OutlineAction {
        tag_menu: wall && geometry,
        reset,
        update_walls: wall && matches!(ev, OutlineEvent::Hollow | OutlineEvent::Delete),
        despawn: matches!(ev, OutlineEvent::Delete),
    }
}

/// Edits one corner coordinate of a rectangular wall from the outline: the
/// corners stay apart and in the simulated area as `RectWall::menu_edit`
/// states, and the wall is tagged and the simulation reset.
pub fn outline_edit(w: &mut RectWall, corner: MenuCorner, horizontal: bool, v: u32) -> (a:
    OutlineAction)
    requires
        corner == MenuCorner::TopLeft && horizontal ==> old(w).rect.max.x >= 1,
        corner == MenuCorner::TopLeft && !horizontal ==> old(w).rect.max.y >= 1,
        corner == MenuCorner::BottomRight && horizontal ==> old(w).rect.min.x < u32::MAX,
        corner == MenuCorner::BottomRight && !horizontal ==> old(w).rect.min.y < u32::MAX,
    ensures
        final(w).rect == spec_menu_edited(old(w).rect, corner, horizontal, v as int),
        final(w).is_hollow == old(w).is_hollow,
        final(w).reflection_factor == old(w).reflection_factor,
        final(w).id == old(w).id,
        final(w).draw_pin == old(w).draw_pin,
        a == spec_outline_action(OutlineKind::RectWall, OutlineEvent::Coordinate),
        a.tag_menu && a.reset,
{
    w.menu_edit(corner, horizontal, v);
    outline_action(OutlineKind::RectWall, OutlineEvent::Coordinate)
}

/// The fields of a circular wall that the outline edits as whole numbers.
#[derive(Clone, Copy, Debug, PartialEq, Eq, Structural)]
pub enum CircField {
    CenterX,
    CenterY,
    Radius,
}

/// The circular wall after a whole-number field was typed into the outline:
/// a center coordinate is kept in the simulated area, the radius in
/// `1..=1000`.
pub open spec fn spec_circ_edited(w: CircWall, field: CircField, v: int) -> CircWall {
    match field {
        CircField::CenterX => CircWall {
            center: crate::math::rect::UVec2 {
                x: menu_clamp(v, SIMULATION_WIDTH as int) as u32,
                y: w.center.y,
            },
            ..w
        },
        CircField::CenterY => CircWall {
            center: crate::math::rect::UVec2 {
                x: w.center.x,
                y: menu_clamp(v, SIMULATION_HEIGHT as int) as u32,
            },
            ..w
        },
        CircField::Radius => CircWall {
            radius: (if v < 1 {
                1
            } else if v > 1000 {
                1000
            } else {
                v
            }) as u32,
            ..w
        },
    }
}

/// Edits a whole-number field of a circular wall from the outline; the
/// wall is tagged and the simulation reset.
pub fn circ_outline_edit(w: &mut CircWall, field: CircField, v: u32) -> (a: OutlineAction)
    ensures
        *final(w) == spec_circ_edited(*old(w), field, v as int),
        a == spec_outline_action(
            OutlineKind::CircWall,
            if field == CircField::Radius {
                OutlineEvent::Radius
            } else {
                OutlineEvent::Coordinate
            },
        ),
        a.tag_menu && a.reset,
{
    match field {
        CircField::CenterX => {
            w.center.x = if v > SIMULATION_WIDTH - 1 {
                SIMULATION_WIDTH - 1
            } else {
                v
            };
            outline_action(OutlineKind::CircWall, OutlineEvent::Coordinate)
        },
        CircField::CenterY => {
            w.center.y = if v > SIMULATION_HEIGHT - 1 {
                SIMULATION_HEIGHT - 1
            } else {
                v
            };
            outline_action(OutlineKind::CircWall, OutlineEvent::Coordinate)
        },
        CircField::Radius => {
            w.radius = if v < 1 {
                1
            } else if v > 1000 {
                1000
            } else {
                v
            };
            outline_action(OutlineKind::CircWall, OutlineEvent::Radius)
        },
    }
}

/// A coordinate of a source or microphone typed into the outline, kept in
/// the simulated area.
pub fn outline_coordinate(v: u32, horizontal: bool) -> (c: u32)
    ensures
        c == menu_clamp(
            v as int,
            if horizontal {
                SIMULATION_WIDTH as int
            } else {
                SIMULATION_HEIGHT as int
            },
        ),
{
    let limit = if horizontal {
        SIMULATION_WIDTH
    } else {
        SIMULATION_HEIGHT
    };
    if v > limit - 1 {
        limit - 1
    } else {
        v
    }
}

/// Whether an outline row is forced open (`Some(true)`: it shows the
/// selected object), forced shut (`Some(false)`: the panel is being folded)
/// or left as the user set it (`None`).
pub fn row_open(id: usize, selected: Option<usize>, collapse_header: bool) -> (o: Option<bool>)
    ensures
        o == (if selected == Some(id) {
            Some(true)
        } else if collapse_header {
            Some(false)
        } else {
            None
        }),
{
    match selected {
        Some(s) => if s == id {
            return Some(true);
        },
        None => {},
    }
    if collapse_header {
        Some(false)
    } else {
        None
    }
}

/// Row `i` comes before row `j` in the outline: by id, and by position
/// among equal ids.
pub open spec fn row_before(ids: Seq<usize>, i: int, j: int) -> bool {
    ids[i] < ids[j] || (ids[i] == ids[j] && i < j)
}

/// How many of the first `m` rows come before row `i`.
pub open spec fn rows_before(ids: Seq<usize>, i: int, m: int) -> nat
    decreases m,
{
    if m <= 0 {
        0
    } else if row_before(ids, m - 1, i) {
        rows_before(ids, i, m - 1) + 1
    } else {
        rows_before(ids, i, m - 1)
    }
}

/// The place of row `i` in the outline.
pub open spec fn row_rank(ids: Seq<usize>, i: int) -> nat {
    rows_before(ids, i, ids.len() as int)
}

proof fn lemma_rows_before_bound(ids: Seq<usize>, i: int, m: int)
    requires
        0 <= i < ids.len(),
        0 <= m <= ids.len(),
    ensures
        rows_before(ids, i, m) + (if i < m {
            1int
        } else {
            0
        }) <= m,
    decreases m,
{
    if m > 0 {
        lemma_rows_before_bound(ids, i, m - 1);
    }
}

proof fn lemma_rows_before_order(ids: Seq<usize>, i: int, k: int, m: int)
    requires
        0 <= i < ids.len(),
        0 <= k < ids.len(),
        0 <= m <= ids.len(),
        row_before(ids, i, k),
    ensures
        rows_before(ids, i, m) + (if i < m {
            1int
        } else {
            0
        }) <= rows_before(ids, k, m),
    decreases m,
{
    if m > 0 {
        lemma_rows_before_order(ids, i, k, m - 1);
    }
}

/// Rows have distinct places in the outline, all below the number of rows.
pub proof fn lemma_row_rank_distinct(ids: Seq<usize>, i: int, k: int)
    requires
        0 <= i < ids.len(),
        0 <= k < ids.len(),
    ensures
        row_rank(ids, i) < ids.len(),
        i != k ==> row_rank(ids, i) != row_rank(ids, k),
{
    lemma_rows_before_bound(ids, i, ids.len() as int);
    if i != k {
        if row_before(ids, i, k) {
            lemma_rows_before_order(ids, i, k, ids.len() as int);
        } else {
            assert(row_before(ids, k, i));
            lemma_rows_before_order(ids, k, i, ids.len() as int);
        }
    }
}

/// A row with a smaller id, or an equal id and an earlier position, is
/// listed earlier in the outline.
pub proof fn lemma_row_rank_order(ids: Seq<usize>, i: int, k: int)
    requires
        0 <= i < ids.len(),
        0 <= k < ids.len(),
        row_before(ids, i, k),
    ensures
        row_rank(ids, i) < row_rank(ids, k),
{
    lemma_rows_before_order(ids, i, k, ids.len() as int);
}

fn count_rows_before(ids: &Vec<usize>, i: usize) -> (r: usize)
    requires
        i < ids.len(),
    ensures
        r == row_rank(ids@, i as int),
{
    let mut r: usize = 0;
    let mut m: usize = 0;
    while m < ids.len()
        invariant
            i < ids.len(),
            m <= ids.len(),
            r == rows_before(ids@, i as int, m as int),
        decreases ids.len() - m,
    {
        proof {
            lemma_rows_before_bound(ids@, i as int, m as int + 1);
        }
        if ids[m] < ids[i] || (ids[m] == ids[i] && m < i) {
            r = r + 1;
        }
        m = m + 1;
    }
    r
}

/// The order in which the outline lists rows with the given ids: by id,
/// rows with equal ids in their given order. Entry `row_rank(ids, i)` of
/// the result is `i`.
pub fn outline_rows(ids: &Vec<usize>) -> (order: Vec<usize>)
    ensures
        order.len() == ids.len(),
        forall|i: int| 0 <= i < ids.len() ==> order@[row_rank(ids@, i) as int] == i,
{
    let n = ids.len();
    let mut order: Vec<usize> = Vec::new();
    let mut k: usize = 0;
    while k < n
        invariant
            k <= n,
            n == ids.len(),
            order.len() == k,
        decreases n - k,
    {
        order.push(0);
        k = k + 1;
    }
    let mut i: usize = 0;
    while i < n
        invariant
            i <= n,
            n == ids.len(),
            order.len() == n,
            forall|j: int| 0 <= j < i ==> order@[row_rank(ids@, j) as int] == j,
        decreases n - i,
    {
        let r = count_rows_before(ids, i);
        proof {
            lemma_row_rank_distinct(ids@, i as int, i as int);
        }
        let ghost before = order@;
        order.set(r, i);
        proof {
            assert forall|j: int| 0 <= j < i + 1 implies order@[row_rank(ids@, j) as int] == j by {
                lemma_row_rank_distinct(ids@, j, i as int);
                if j < i {
                    assert(before[row_rank(ids@, j) as int] == j);
                }
            }
        }
        i = i + 1;
    }
    order
}

} // verus!

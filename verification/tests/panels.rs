use wavefront::components::wall::{CircWall, MenuCorner, RectWall};
use wavefront::render::overlay::{band_shade, Pixel};
use wavefront::ui::panels::{
    circ_outline_edit, outline_action, outline_coordinate, outline_edit, outline_rows,
    panel_step, preferences_step, row_open, tool_panel_step, CircField, OutlineAction,
    OutlineEvent, OutlineKind, PanelAction, PanelEvent, PanelState, Preferences,
    PreferencesAction, PreferencesEvent, ToolButton,
};
use wavefront::ui::state::{PlaceType, ToolType};

fn ui() -> PanelState {
    PanelState {
        is_running: true,
        show_plots: false,
        render_abc_area: false,
        tools_enabled: true,
        current_tool: ToolType::Select,
        cur_place_type: PlaceType::Source,
    }
}

const NOTHING: PanelAction = PanelAction {
    reset: false,
    despawn_all: false,
    reset_cells: None,
    update_walls: false,
    clear_mic_records: false,
};

#[test]
fn start_stop_reset_and_plots() {
    let mut s = ui();
    assert_eq!(panel_step(&mut s, 50, PanelEvent::StartStop), NOTHING);
    assert!(!s.is_running);
    assert_eq!(panel_step(&mut s, 50, PanelEvent::Reset), PanelAction { reset: true, ..NOTHING });
    assert!(!s.is_running);
    assert_eq!(
        panel_step(&mut s, 50, PanelEvent::ShowPlots),
        PanelAction { clear_mic_records: true, ..NOTHING }
    );
    assert!(s.show_plots);
}

#[test]
fn delete_all_resets_every_cell() {
    let mut s = ui();
    let a = panel_step(&mut s, 50, PanelEvent::DeleteAll);
    assert_eq!(
        a,
        PanelAction { despawn_all: true, reset_cells: Some(500 * 500), update_walls: true, ..NOTHING }
    );
    assert_eq!(s, ui());
}

#[test]
fn place_type_follows_the_tool_options() {
    let mut s = PanelState { current_tool: ToolType::Place(PlaceType::Source), ..ui() };
    panel_step(&mut s, 50, PanelEvent::ChoosePlaceType(PlaceType::CircWall));
    assert_eq!(s.cur_place_type, PlaceType::CircWall);
    assert_eq!(s.current_tool, ToolType::Place(PlaceType::CircWall));
    let mut other = ui();
    panel_step(&mut other, 50, PanelEvent::ChoosePlaceType(PlaceType::Mic));
    assert_eq!(other, ui());
    let mut disabled = PanelState { render_abc_area: true, tools_enabled: false, ..s };
    panel_step(&mut disabled, 50, PanelEvent::ChoosePlaceType(PlaceType::Mic));
    assert_eq!(disabled.cur_place_type, PlaceType::CircWall);
}

#[test]
fn tool_buttons() {
    let t = ToolType::Select;
    assert_eq!(tool_panel_step(t, PlaceType::Mic, true, ToolButton::Place), ToolType::Place(PlaceType::Mic));
    assert_eq!(tool_panel_step(t, PlaceType::Mic, true, ToolButton::Move), ToolType::Move);
    assert_eq!(tool_panel_step(t, PlaceType::Mic, true, ToolButton::ResizeWall), ToolType::ResizeWall);
    assert_eq!(tool_panel_step(ToolType::Move, PlaceType::Mic, true, ToolButton::Select), ToolType::Select);
    assert_eq!(tool_panel_step(t, PlaceType::Mic, false, ToolButton::Move), ToolType::Select);
}

#[test]
fn rendering_the_boundary_disables_tools_and_grows_the_image() {
    let mut p = Preferences { boundary_width: 50, render_abc_area: false, tools_enabled: true };
    let a = preferences_step(&mut p, PreferencesEvent::RenderBoundary);
    assert_eq!(p, Preferences { boundary_width: 50, render_abc_area: true, tools_enabled: false });
    assert_eq!(a, PreferencesAction { reset: false, buffer_len: None, pixel_side: Some(500) });
    let a = preferences_step(&mut p, PreferencesEvent::RenderBoundary);
    assert!(p.tools_enabled && !p.render_abc_area);
    assert_eq!(a.pixel_side, Some(400));
}

#[test]
fn boundary_width_resizes_the_buffers() {
    let mut p = Preferences { boundary_width: 50, render_abc_area: true, tools_enabled: false };
    let a = preferences_step(&mut p, PreferencesEvent::BoundaryWidth(10));
    assert_eq!(p.boundary_width, 10);
    assert_eq!(a, PreferencesAction { reset: false, buffer_len: Some(420 * 420), pixel_side: Some(420) });
    preferences_step(&mut p, PreferencesEvent::BoundaryWidth(1000));
    assert_eq!(p.boundary_width, 200);
    preferences_step(&mut p, PreferencesEvent::BoundaryWidth(0));
    assert_eq!(p.boundary_width, 2);
    assert!(preferences_step(&mut p, PreferencesEvent::CellSize).reset);
    assert!(preferences_step(&mut p, PreferencesEvent::WaveFile).reset);
}

#[test]
fn outline_rect_and_circle_edits() {
    let mut w = RectWall::new(10, 10, 50, 50, false, 0, 0);
    let a = outline_edit(&mut w, MenuCorner::BottomRight, true, 5);
    assert_eq!(w.rect.max.x, 11);
    assert_eq!(a, OutlineAction { tag_menu: true, reset: true, update_walls: false, despawn: false });
    let mut c = CircWall::new(10, 10, 5, false, 0, 0);
    circ_outline_edit(&mut c, CircField::Radius, 0);
    assert_eq!(c.radius, 1);
    circ_outline_edit(&mut c, CircField::Radius, 5000);
    assert_eq!(c.radius, 1000);
    circ_outline_edit(&mut c, CircField::CenterY, 600);
    assert_eq!(c.center.y, 399);
    assert_eq!(outline_coordinate(450, true), 399);
    assert_eq!(outline_coordinate(12, false), 12);
}

#[test]
fn outline_actions() {
    let del = outline_action(OutlineKind::RectWall, OutlineEvent::Delete);
    assert_eq!(del, OutlineAction { tag_menu: false, reset: true, update_walls: true, despawn: true });
    let mic = outline_action(OutlineKind::Mic, OutlineEvent::Coordinate);
    assert_eq!(mic, OutlineAction { tag_menu: false, reset: false, update_walls: false, despawn: false });
    let src = outline_action(OutlineKind::Source, OutlineEvent::Signal);
    assert!(src.reset && !src.tag_menu);
    let hollow = outline_action(OutlineKind::CircWall, OutlineEvent::Hollow);
    assert!(hollow.update_walls && hollow.reset && !hollow.tag_menu);
    assert!(outline_action(OutlineKind::CircWall, OutlineEvent::Angle).tag_menu);
}

#[test]
fn outline_rows_are_sorted_by_id() {
    assert_eq!(outline_rows(&vec![3, 1, 2, 1]), vec![1, 3, 2, 0]);
    assert_eq!(outline_rows(&vec![]), Vec::<usize>::new());
    assert_eq!(row_open(4, Some(4), true), Some(true));
    assert_eq!(row_open(4, Some(5), true), Some(false));
    assert_eq!(row_open(4, None, false), None);
}

#[test]
fn band_pixels_turn_reddish() {
    let p = Pixel { r: 255, g: 255, b: 0, a: 0 };
    assert_eq!(band_shade(p), Pixel { r: 175, g: 80, b: 80, a: 255 });
    assert_eq!(band_shade(Pixel { r: 0, g: 0, b: 0, a: 0 }).r, 100);
}

#[test]
fn move_to_a_pointer_past_i32_max() {
    let mut w = RectWall::new(10, 10, 20, 20, false, 0, 0);
    w.set_center(u32::MAX, u32::MAX);
    assert_eq!((w.rect.min.x, w.rect.min.y, w.rect.max.x, w.rect.max.y), (0, 0, 10, 10));
}

use wavefront::components::states::{MenuSelected, Move, Selected};
use wavefront::components::wall::RectWall;
use wavefront::grid::plugin::{ComponentIDs, GridPlugin};
use wavefront::input::plugin::InputPlugin;
use wavefront::input::systems::{
    apply_tool_shortcuts, find_near, find_near_in_groups, is_near, snap_corners_to_grid,
    snap_to_grid, undo_command, ToolKeys,
};
use wavefront::math::rect::{UVec2, WRect};
use wavefront::render::gradient::Gradient;
use wavefront::ui::state::{ClipboardBuffer, FftMicrophone, FftScaling, PlaceType, ToolType};

const NO_KEYS: ToolKeys = ToolKeys { q: false, w: false, e: false, r: false, c: false, s: false, m: false };

#[test]
fn component_ids_count_up_per_kind() {
    let mut ids = ComponentIDs::default();
    assert_eq!(ids.get_new_mic_id(), 0);
    assert_eq!(ids.get_new_mic_id(), 1);
    assert_eq!(ids.get_new_source_id(), 0);
    assert_eq!(ids.get_new_wall_id(), 0);
    assert_eq!(ids.get_new_wall_id(), 1);
    ids.decrement_wall_ids();
    assert_eq!(ids.get_new_wall_id(), 1);
    assert_eq!(ids.get_new_mic_id(), 2);
    ids.reset();
    assert_eq!(ids.get_new_mic_id(), 0);
    assert_eq!(ids.get_new_source_id(), 0);
    assert_eq!(ids.get_new_wall_id(), 0);
}

#[test]
fn handles_are_grabbed_within_ten_cells() {
    assert!(is_near(UVec2 { x: 100, y: 100 }, 110, 90));
    assert!(!is_near(UVec2 { x: 100, y: 100 }, 111, 100));
    assert!(!is_near(UVec2 { x: 5, y: 100 }, 5, 89));
    let points = vec![UVec2 { x: 0, y: 0 }, UVec2 { x: 50, y: 50 }, UVec2 { x: 55, y: 55 }];
    assert_eq!(find_near(&points, 52, 52), Some(1));
    assert_eq!(find_near(&points, 64, 64), Some(2));
    assert_eq!(find_near(&points, 200, 200), None);
    let groups = vec![vec![UVec2 { x: 300, y: 300 }], vec![], points.clone()];
    assert_eq!(find_near_in_groups(&groups, 52, 52), Some((2, 1)));
    assert_eq!(find_near_in_groups(&groups, 301, 299), Some((0, 0)));
    assert_eq!(find_near_in_groups(&groups, 150, 150), None);
}

#[test]
fn snap_to_grid_rounds_to_tens() {
    assert_eq!(snap_to_grid(0), 0);
    assert_eq!(snap_to_grid(4), 0);
    assert_eq!(snap_to_grid(5), 10);
    assert_eq!(snap_to_grid(14), 10);
    assert_eq!(snap_to_grid(399), 400);
}

#[test]
fn snap_to_grid_agrees_with_single_precision_rounding() {
    for v in 0..=2_000_000u32 {
        let expected = (v as f32 / 10.).round() as u32 * 10;
        assert_eq!(snap_to_grid(v), expected, "{}", v);
    }
    for v in (0..=0x100_0000u32).step_by(997) {
        let expected = (v as f32 / 10.).round() as u32 * 10;
        assert_eq!(snap_to_grid(v), expected, "{}", v);
    }
}

#[test]
fn snap_corners_to_grid_moves_all_corners() {
    let mut w = RectWall::new(12, 27, 44, 58, false, 0, 0);
    snap_corners_to_grid(&mut w, false);
    assert_eq!(w.rect, WRect::new(10, 30, 40, 60));
    let mut w = RectWall::new(12, 27, 44, 58, false, 0, 0);
    snap_corners_to_grid(&mut w, true);
    assert_eq!(w.rect, WRect::new(10, 30, 39, 59));
    // corners that snap onto each other stay apart
    let mut w = RectWall::new(11, 11, 13, 13, false, 0, 0);
    snap_corners_to_grid(&mut w, false);
    assert_eq!(w.rect, WRect::new(10, 10, 11, 11));
}

#[test]
fn tool_shortcuts() {
    let select = ToolType::Select;
    let src = PlaceType::Source;
    assert_eq!(apply_tool_shortcuts(select, src, NO_KEYS, false), (select, src));
    assert_eq!(
        apply_tool_shortcuts(select, src, ToolKeys { r: true, ..NO_KEYS }, false),
        (ToolType::Place(PlaceType::RectWall), PlaceType::RectWall)
    );
    assert_eq!(
        apply_tool_shortcuts(select, src, ToolKeys { c: true, ..NO_KEYS }, true),
        (select, src)
    );
    assert_eq!(
        apply_tool_shortcuts(ToolType::Move, PlaceType::Mic, ToolKeys { q: true, ..NO_KEYS }, false),
        (ToolType::Select, PlaceType::Mic)
    );
    assert_eq!(
        apply_tool_shortcuts(select, src, ToolKeys { w: true, ..NO_KEYS }, false),
        (ToolType::Move, src)
    );
    assert_eq!(
        apply_tool_shortcuts(select, src, ToolKeys { e: true, ..NO_KEYS }, false),
        (ToolType::ResizeWall, src)
    );
    assert_ne!(
        apply_tool_shortcuts(select, src, ToolKeys { w: true, ..NO_KEYS }, false),
        apply_tool_shortcuts(select, src, ToolKeys { e: true, ..NO_KEYS }, false)
    );
    assert_eq!(
        apply_tool_shortcuts(select, src, ToolKeys { m: true, s: true, ..NO_KEYS }, false),
        (ToolType::Place(PlaceType::Mic), PlaceType::Mic)
    );
}

#[test]
fn undo_and_redo_keys() {
    assert_eq!(undo_command(true, false, true), Some(true));
    assert_eq!(undo_command(true, true, true), Some(false));
    assert_eq!(undo_command(false, false, true), None);
    assert_eq!(undo_command(true, false, false), None);
}

#[test]
fn labels() {
    assert_eq!(ToolType::Select.label(), "Select Object");
    assert_eq!(ToolType::Place(PlaceType::Mic).label(), "Place Object");
    assert_eq!(ToolType::Move.label(), "Move Object");
    assert_eq!(ToolType::ResizeWall.label(), "Resize Wall");
    assert_eq!(PlaceType::Source.label(), "Source");
    assert_eq!(PlaceType::Mic.label(), "Microphone");
    assert_eq!(PlaceType::RectWall.label(), "Rectangle Wall");
    assert_eq!(PlaceType::CircWall.label(), "Circle Wall");
    assert_eq!(FftScaling::Normalized.label(), "Normalized");
    assert_eq!(FftScaling::Decibels.label(), "dB");
}

#[test]
fn clipboard_gives_back_the_last_copy() {
    let mut clipboard = ClipboardBuffer::default();
    assert_eq!(clipboard.get(), None);
    clipboard.copy(7);
    clipboard.copy(9);
    assert_eq!(clipboard.get(), Some(9));
    assert_eq!(clipboard.get(), Some(9));
    clipboard.clear();
    assert_eq!(clipboard.get(), None);
}

#[test]
fn defaults_and_markers() {
    assert_eq!(Gradient::default(), Gradient::Turbo);
    assert_eq!(FftMicrophone::default().mic_id, None);
    assert_eq!(Move, Move);
    assert_eq!(Selected, Selected);
    assert_eq!(MenuSelected, MenuSelected);
    assert_eq!(GridPlugin, GridPlugin);
    assert_eq!(InputPlugin, InputPlugin);
}

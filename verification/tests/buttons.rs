use wavefront::components::wall::{CircWall, MenuCorner, RectWall, WResize};
use wavefront::grid::plugin::ComponentIDs;
use wavefront::input::step::{
    button_step, pasted_circ_wall, pasted_rect_wall, Marker, PointerFrame, Scene, StepEvents, Tagged,
};
use wavefront::input::systems::ToolKeys;
use wavefront::math::rect::UVec2;
use wavefront::ui::state::{PlaceType, ToolType};

const NO_KEYS: ToolKeys = ToolKeys { q: false, w: false, e: false, r: false, c: false, s: false, m: false };

fn idle() -> PointerFrame {
    PointerFrame {
        just_pressed: false,
        pressed: false,
        just_released: false,
        nearest: None,
        exact: None,
        ctrl: false,
        space: false,
        keys: NO_KEYS,
        tools_enabled: true,
        tool_use_enabled: true,
        wall_is_hollow: false,
        wall_reflection_factor: 1.0f32.to_bits(),
    }
}

fn at(x: u32, y: u32) -> Option<UVec2> {
    Some(UVec2 { x, y })
}

fn click(x: u32, y: u32) -> PointerFrame {
    PointerFrame { just_pressed: true, pressed: true, nearest: at(x, y), exact: at(x, y), ..idle() }
}

fn hold(x: u32, y: u32) -> PointerFrame {
    PointerFrame { pressed: true, nearest: at(x, y), exact: at(x, y), ..idle() }
}

fn release(x: u32, y: u32) -> PointerFrame {
    PointerFrame { just_released: true, nearest: at(x, y), exact: at(x, y), ..idle() }
}

fn empty() -> Scene {
    Scene { sources: vec![], mics: vec![], rect_walls: vec![], circ_walls: vec![] }
}

fn tagged<T>(item: T, entity: u64) -> Tagged<T> {
    Tagged { item, entity: Some(entity), selected: false, moving: false, resize: None }
}

struct World {
    scene: Scene,
    ids: ComponentIDs,
    tool: (ToolType, PlaceType),
    running: bool,
}

impl World {
    fn new(tool: ToolType) -> World {
        World { scene: empty(), ids: ComponentIDs::default(), tool: (tool, PlaceType::Source), running: true }
    }

    fn step(&mut self, frame: PointerFrame) -> StepEvents {
        button_step(&mut self.scene, &mut self.ids, &mut self.tool, &mut self.running, &frame)
    }
}

#[test]
fn each_shortcut_key_alone() {
    let cases = [
        (ToolKeys { q: true, ..NO_KEYS }, ToolType::Select),
        (ToolKeys { w: true, ..NO_KEYS }, ToolType::Move),
        (ToolKeys { e: true, ..NO_KEYS }, ToolType::ResizeWall),
        (ToolKeys { r: true, ..NO_KEYS }, ToolType::Place(PlaceType::RectWall)),
        (ToolKeys { c: true, ..NO_KEYS }, ToolType::Place(PlaceType::CircWall)),
        (ToolKeys { s: true, ..NO_KEYS }, ToolType::Place(PlaceType::Source)),
        (ToolKeys { m: true, ..NO_KEYS }, ToolType::Place(PlaceType::Mic)),
    ];
    for (keys, expected) in cases {
        let mut w = World::new(ToolType::Place(PlaceType::Mic));
        w.tool.1 = PlaceType::Mic;
        let events = w.step(PointerFrame { keys, ..idle() });
        assert_eq!(w.tool.0, expected);
        if let ToolType::Place(t) = expected {
            assert_eq!(w.tool.1, t);
        } else {
            assert_eq!(w.tool.1, PlaceType::Mic);
        }
        assert!(w.running);
        assert_eq!(events, StepEvents { update_walls: false, collapse_header: false });
        assert!(w.scene.sources.is_empty() && w.scene.rect_walls.is_empty());
    }
}

#[test]
fn space_toggles_play_and_pause() {
    let mut w = World::new(ToolType::Select);
    w.step(PointerFrame { space: true, ..idle() });
    assert!(!w.running);
    w.step(PointerFrame { space: true, ..idle() });
    assert!(w.running);
    assert_eq!(w.tool.0, ToolType::Select);
}

#[test]
fn placing_sources_and_mics_hands_out_ids() {
    let mut w = World::new(ToolType::Place(PlaceType::Source));
    w.step(click(5, 6));
    w.step(release(5, 6));
    w.step(click(7, 8));
    assert_eq!(w.scene.sources.len(), 2);
    assert_eq!(w.scene.sources[0].item, Marker { x: 5, y: 6, id: 0 });
    assert_eq!(w.scene.sources[1].item, Marker { x: 7, y: 8, id: 1 });
    assert_eq!(w.scene.sources[1].entity, None);
    assert_eq!(w.ids.next_ids(), (0, 2, 0));
    w.tool = (ToolType::Place(PlaceType::Mic), PlaceType::Mic);
    w.step(click(9, 9));
    assert_eq!(w.scene.mics[0].item, Marker { x: 9, y: 9, id: 0 });
}

#[test]
fn drawing_a_rect_wall() {
    let mut w = World::new(ToolType::Place(PlaceType::RectWall));
    w.step(click(10, 10));
    assert_eq!(w.scene.rect_walls.len(), 1);
    assert_eq!(w.scene.rect_walls[0].resize, Some(WResize::Draw));
    assert_eq!(w.ids.next_ids().2, 1);
    w.scene.rect_walls[0].entity = Some(1);
    w.step(hold(20, 30));
    let r = w.scene.rect_walls[0].item.rect;
    assert_eq!((r.min.x, r.min.y, r.max.x, r.max.y), (10, 10, 20, 30));
    w.step(hold(4, 3));
    let r = w.scene.rect_walls[0].item.rect;
    assert_eq!((r.min.x, r.min.y, r.max.x, r.max.y), (4, 3, 10, 10));
    let events = w.step(release(4, 3));
    assert_eq!(events, StepEvents { update_walls: true, collapse_header: true });
    assert_eq!(w.scene.rect_walls.len(), 1);
    assert_eq!(w.scene.rect_walls[0].resize, None);
    assert_eq!(w.ids.next_ids().2, 1);
}

#[test]
fn a_wall_of_one_cell_is_removed_on_release() {
    let mut w = World::new(ToolType::Place(PlaceType::RectWall));
    w.step(click(10, 10));
    w.step(release(10, 10));
    assert!(w.scene.rect_walls.is_empty());
    assert_eq!(w.ids.next_ids().2, 0);
    w.tool = (ToolType::Place(PlaceType::CircWall), PlaceType::CircWall);
    w.step(click(50, 50));
    assert_eq!(w.scene.circ_walls[0].item.radius, 0);
    w.step(release(50, 50));
    assert!(w.scene.circ_walls.is_empty());
    assert_eq!(w.ids.next_ids().2, 0);
}

#[test]
fn drawing_a_circle_measures_the_radius() {
    let mut w = World::new(ToolType::Place(PlaceType::CircWall));
    w.step(click(100, 100));
    w.step(hold(103, 104));
    let c = w.scene.circ_walls[0].item;
    assert_eq!(c.radius, 5);
    assert_eq!(c.resize_point, UVec2 { x: 103, y: 104 });
    w.step(hold(102, 102));
    assert_eq!(w.scene.circ_walls[0].item.radius, 2);
    w.step(release(102, 102));
    assert_eq!(w.scene.circ_walls.len(), 1);
    assert_eq!(w.scene.circ_walls[0].resize, None);
}

#[test]
fn select_skips_what_is_already_selected() {
    let mut w = World::new(ToolType::Select);
    w.scene.sources.push(tagged(Marker { x: 10, y: 10, id: 0 }, 1));
    w.scene.mics.push(tagged(Marker { x: 12, y: 12, id: 0 }, 2));
    w.step(click(11, 11));
    assert!(w.scene.sources[0].selected && !w.scene.mics[0].selected);
    w.step(click(11, 11));
    assert!(!w.scene.sources[0].selected && w.scene.mics[0].selected);
    w.step(click(200, 200));
    assert!(!w.scene.sources[0].selected && !w.scene.mics[0].selected);
    assert!(!w.scene.sources[0].moving);
}

#[test]
fn move_tool_drags_and_snaps() {
    let mut w = World::new(ToolType::Move);
    w.scene.sources.push(tagged(Marker { x: 10, y: 10, id: 0 }, 1));
    w.step(click(12, 9));
    assert!(w.scene.sources[0].selected && w.scene.sources[0].moving);
    assert_eq!((w.scene.sources[0].item.x, w.scene.sources[0].item.y), (10, 10));
    w.step(hold(33, 47));
    assert_eq!((w.scene.sources[0].item.x, w.scene.sources[0].item.y), (33, 47));
    w.step(PointerFrame { ctrl: true, ..hold(33, 47) });
    assert_eq!((w.scene.sources[0].item.x, w.scene.sources[0].item.y), (30, 50));
    w.step(release(33, 47));
    assert!(!w.scene.sources[0].moving && w.scene.sources[0].selected);
}

#[test]
fn move_tool_centers_rect_walls() {
    let mut w = World::new(ToolType::Move);
    w.scene.rect_walls.push(tagged(RectWall::new(10, 10, 20, 20, false, 0, 0), 1));
    w.step(click(15, 15));
    assert!(w.scene.rect_walls[0].moving);
    w.step(hold(100, 50));
    let r = w.scene.rect_walls[0].item.rect;
    assert_eq!((r.min.x, r.min.y, r.max.x, r.max.y), (95, 45, 105, 55));
}

#[test]
fn resize_tool_grabs_a_corner_and_a_radius() {
    let mut w = World::new(ToolType::ResizeWall);
    w.scene.rect_walls.push(tagged(RectWall::new(10, 10, 50, 50, false, 0, 0), 1));
    w.scene.circ_walls.push(tagged(CircWall::new(200, 200, 5, false, 0, 1), 2));
    w.step(click(52, 11));
    assert_eq!(w.scene.rect_walls[0].resize, Some(WResize::TopRight));
    assert_eq!(w.scene.circ_walls[0].resize, None);
    w.step(hold(80, 5));
    let r = w.scene.rect_walls[0].item.rect;
    assert_eq!((r.min.x, r.min.y, r.max.x, r.max.y), (10, 5, 80, 50));
    w.step(release(80, 5));
    assert_eq!(w.scene.rect_walls[0].resize, None);
    w.step(click(201, 199));
    assert_eq!(w.scene.circ_walls[0].resize, Some(WResize::Radius));
    assert_eq!(w.scene.rect_walls[0].resize, None);
}

#[test]
fn move_and_resize_tools_act_differently() {
    let wall = RectWall::new(10, 10, 50, 50, false, 0, 0);
    let mut mover = World::new(ToolType::Move);
    mover.scene.rect_walls.push(tagged(wall, 1));
    mover.step(click(30, 30));
    assert!(mover.scene.rect_walls[0].moving);
    assert_eq!(mover.scene.rect_walls[0].resize, None);
    let mut resizer = World::new(ToolType::ResizeWall);
    resizer.scene.rect_walls.push(tagged(wall, 1));
    resizer.step(click(30, 30));
    assert!(!resizer.scene.rect_walls[0].moving);
    resizer.step(click(10, 10));
    assert_eq!(resizer.scene.rect_walls[0].resize, Some(WResize::TopLeft));
    assert!(!resizer.scene.rect_walls[0].moving);
}

#[test]
fn disabled_tools_ignore_clicks() {
    let mut w = World::new(ToolType::Place(PlaceType::Source));
    w.step(PointerFrame { tools_enabled: false, ..click(5, 5) });
    assert!(w.scene.sources.is_empty());
    w.step(PointerFrame { tool_use_enabled: false, ..click(5, 5) });
    assert!(w.scene.sources.is_empty());
}

#[test]
fn outline_menu_keeps_corners_apart() {
    let mut wall = RectWall::new(10, 10, 50, 50, false, 0, 0);
    wall.menu_edit(MenuCorner::TopLeft, true, 70);
    assert_eq!(wall.rect.min.x, 49);
    wall.menu_edit(MenuCorner::BottomRight, false, 5);
    assert_eq!(wall.rect.max.y, 11);
    wall.menu_edit(MenuCorner::BottomRight, true, 1000);
    assert_eq!(wall.rect.max.x, 399);
    wall.menu_edit(MenuCorner::TopLeft, false, 3);
    assert_eq!(wall.rect.min.y, 3);
}

#[test]
fn successive_ids_are_fresh() {
    let mut ids = ComponentIDs::default();
    let got: Vec<usize> = (0..5).map(|_| ids.get_new_source_id()).collect();
    assert_eq!(got, vec![0, 1, 2, 3, 4]);
    let walls: Vec<usize> = (0..3).map(|_| ids.get_new_wall_id()).collect();
    assert_eq!(walls, vec![0, 1, 2]);
}

#[test]
fn pasted_walls_get_new_ids_and_move() {
    let mut ids = ComponentIDs::default();
    ids.get_new_wall_id();
    let r = pasted_rect_wall(RectWall::new(10, 10, 20, 20, true, 7, 0), &mut ids);
    assert_eq!((r.rect.min.x, r.rect.min.y, r.rect.max.x, r.rect.max.y), (15, 15, 25, 25));
    assert_eq!((r.id, r.is_hollow, r.reflection_factor), (1, true, 7));
    let edge = pasted_rect_wall(RectWall::new(390, 390, 398, 399, false, 0, 0), &mut ids);
    assert_eq!((edge.rect.max.x, edge.rect.max.y), (399, 399));
    let c = pasted_circ_wall(CircWall::new(100, 50, 4, false, 0, 0), &mut ids);
    assert_eq!((c.center.x, c.center.y, c.id, c.radius), (105, 55, 3, 4));
    assert_eq!(ids.next_ids().2, 4);
}

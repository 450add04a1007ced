use bits_and_blocks::bits::Bits16;
use bits_and_blocks::game::{CursorGrabMode, GameEvent, GameState, GameUI, MenuAction};
use bits_and_blocks::logic::LogicEvent;
use bits_and_blocks::session::{EventAction, GameSession, VoxelMesh};
use bits_and_blocks::ui_layout::{
    button_atlas, voxel_atlas, AtlasGrid,
    exit_menu_bundle, spawn_button, spawn_text_button, graft, setup_main_menu, setup_ui, spawn_clock_widget, spawn_cursor_node, spawn_debug_text, spawn_exit_menu,
    spawn_hotbar, spawn_identifier, spawn_inventory, spawn_load_game_ui, spawn_main_ui, spawn_new_game_ui,
    spawn_speed_indicator, UiMarker, UiStyle, UiTree, Cursor, SpeedIndicator,
};
use bits_and_blocks::voxel::{ComponentVariants, IVec3, StructuralVariants, Voxel, VoxelType, SUBSET_SIZES};
use bits_and_blocks::world::{VoxelAsset, VoxelDefinition};

fn assets() -> Vec<VoxelAsset> {
    let mut out = Vec::new();
    let mut row = 0;
    for g in 0..9 {
        for s in 0..SUBSET_SIZES[g] {
            let kind = VoxelType::try_from((g, s)).unwrap();
            out.push(VoxelAsset { definition: VoxelDefinition { voxel_id: kind, name: format!("{:?}", kind) }, texture_row: row });
            row += 1;
        }
    }
    out
}

fn v(kind: VoxelType, x: i32, y: i32, z: i32) -> Voxel {
    Voxel { kind, position: IVec3::new(x, y, z), direction: 1, state: Bits16::all_zeros() }
}

fn is_tree(t: &UiTree) -> bool {
    !t.elements.is_empty()
        && t.elements[0].parent.is_none()
        && t.elements.iter().enumerate().skip(1).all(|(i, e)| matches!(e.parent, Some(p) if p < i))
}

#[test]
fn new_session() {
    let s = GameSession::new(assets());
    assert_eq!(s.ui(), GameUI::MainScreen);
    assert_eq!(s.speed(), 1);
    assert!(s.world_name().is_empty());
    assert_eq!(s.player().hotbar.len(), 9);
    assert!(s.map().voxel_map.is_empty());
}

#[test]
fn placing_then_removing_a_block() {
    let mut s = GameSession::new(assets());
    let brick = v(VoxelType::Structure(StructuralVariants::RedBrick), 1, 0, 0);
    let a = s.handle_event(&GameEvent::PlaceBlock { voxel: brick });
    assert!(matches!(a, EventAction::Spawn { voxel, mesh: VoxelMesh::Block { row: 1 } } if voxel == brick));
    assert!(s.record_voxel(brick, 42));
    // A second placement at the same cell is ignored.
    assert!(matches!(s.handle_event(&GameEvent::PlaceBlock { voxel: brick }), EventAction::Nothing));
    assert!(!s.record_voxel(brick, 43));
    let a = s.handle_event(&GameEvent::RemoveBlock { position: IVec3::new(1, 0, 0) });
    assert!(matches!(a, EventAction::Despawn { entity: 42 }));
    assert!(s.map().voxel_map.is_empty() && s.map().entity_map.is_empty());
    assert!(matches!(s.handle_event(&GameEvent::RemoveBlock { position: IVec3::new(1, 0, 0) }), EventAction::Nothing));
}

#[test]
fn placing_a_cable_links_it_to_its_neighbours() {
    let mut s = GameSession::new(assets());
    let w1 = v(VoxelType::Wire(0), 0, 0, 0);
    s.record_voxel(w1, 1);
    let w2 = v(VoxelType::Wire(0), 1, 0, 0);
    match s.handle_event(&GameEvent::PlaceBlock { voxel: w2 }) {
        EventAction::Spawn { voxel, mesh: VoxelMesh::Cable { row, connections } } => {
            assert_eq!(voxel, w2);
            assert_eq!(row, 9);
            assert_eq!(connections, [false, true, false, false, false, false]);
        },
        other => panic!("unexpected {:?}", other),
    }
    s.record_voxel(w2, 2);
    let updates = [
        IVec3::new(1, 0, 0),
        IVec3::new(-1, 0, 0),
        IVec3::new(0, 1, 0),
        IVec3::new(0, -1, 0),
        IVec3::new(0, 0, 1),
        IVec3::new(0, 0, -1),
    ];
    match s.handle_event(&GameEvent::UpdateMesh { updates }) {
        EventAction::Redraw { cables } => {
            assert_eq!(cables.len(), 1);
            assert_eq!(cables[0].entity, 2);
            assert_eq!(cables[0].row, Some(9));
            assert_eq!(cables[0].connections, [false, true, false, false, false, false]);
        },
        other => panic!("unexpected {:?}", other),
    }
}

#[test]
fn placing_a_kind_without_drawing_data() {
    let mut s = GameSession::new(Vec::new());
    let brick = v(VoxelType::Structure(StructuralVariants::RedBrick), 0, 0, 0);
    assert!(matches!(s.handle_event(&GameEvent::PlaceBlock { voxel: brick }), EventAction::MissingAsset { .. }));
    let wire = v(VoxelType::Wire(3), 0, 0, 0);
    assert!(matches!(s.handle_event(&GameEvent::PlaceBlock { voxel: wire }), EventAction::Spawn { mesh: VoxelMesh::Cable { row: 0, .. }, .. }));
}

#[test]
fn session_requests() {
    let mut s = GameSession::new(assets());
    assert!(matches!(s.handle_event(&GameEvent::Skip), EventAction::StopFrame));
    assert!(matches!(s.handle_event(&GameEvent::ToggleUI { new_ui: GameUI::Debug }), EventAction::Nothing));
    assert_eq!(s.ui(), GameUI::Debug);
    assert!(matches!(s.handle_event(&GameEvent::StateChange { new_state: GameState::InGame }), EventAction::SetState { state: GameState::InGame }));
    assert!(matches!(
        s.handle_event(&GameEvent::UpdateCursorMode { mode: CursorGrabMode::Locked, show_cursor: false, enable_input: true }),
        EventAction::SetCursor { mode: CursorGrabMode::Locked, show_cursor: false, enable_input: true }
    ));
    assert!(matches!(s.handle_event(&GameEvent::SpeedChange { change: 2 }), EventAction::SetSpeed { setting: 3 }));
    assert!(matches!(s.handle_event(&GameEvent::SpeedChange { change: 9 }), EventAction::SetSpeed { setting: 4 }));
    assert_eq!(s.speed(), 4);
    s.record_voxel(v(VoxelType::BundledWire, 0, 0, 0), 5);
    match s.handle_event(&GameEvent::SaveWorld { world_name: "home".to_string() }) {
        EventAction::Save { world } => {
            assert_eq!(world.world_name, "home");
            assert_eq!(world.voxels.len(), 1);
        },
        other => panic!("unexpected {:?}", other),
    }
    assert_eq!(s.world_name(), "home");
    assert!(matches!(s.handle_event(&GameEvent::LoadWorld { world_name: "away".to_string() }), EventAction::Load { world_name } if world_name == "away"));
    assert_eq!(s.world_name(), "away");
    assert!(matches!(s.handle_event(&GameEvent::DeleteWorld { world_name: "old".to_string() }), EventAction::Delete { world_name } if world_name == "old"));
    let mut modified = s.player().clone();
    modified.hotbar[3] = VoxelType::Wire(9);
    modified.hotbar_selector = 3;
    modified.hit_voxel = Some(Voxel { kind: VoxelType::Wire(1), position: IVec3::new(7, 7, 7), direction: 0, state: Bits16::new(0) });
    modified.selected_descriptor = Some(VoxelDefinition { voxel_id: VoxelType::Wire(9), name: "Wire".to_string() });
    s.handle_event(&GameEvent::ModifyPlayer { player_modified: modified });
    assert_eq!(s.player().hotbar_selector, 3);
    assert_eq!(s.player().hotbar[3], VoxelType::Wire(9));
    assert_eq!(s.player().hit_voxel.unwrap().position, IVec3::new(7, 7, 7));
    assert_eq!(s.player().selected_descriptor.as_ref().unwrap().name, "Wire");
    s.scroll(1);
    assert_eq!(s.player().hotbar_selector, 2);
    s.scroll(-1);
    s.scroll(-1);
    assert_eq!(s.player().hotbar_selector, 4);
    s.name_world("new/world?");
    assert_eq!(s.world_name(), "newworld");
}

#[test]
fn loading_a_world() {
    let mut s = GameSession::new(assets());
    let saved = vec![
        v(VoxelType::Wire(0), 0, 0, 0),
        v(VoxelType::Wire(0), 0, 0, 1),
        v(VoxelType::Component(ComponentVariants::Light), 5, 0, 0),
    ];
    let mut entity = 100;
    for x in &saved {
        match s.load_step(*x) {
            EventAction::Spawn { voxel, mesh: VoxelMesh::Block { .. } } => {
                assert!(s.record_voxel(voxel, entity));
                entity += 1;
            },
            other => panic!("unexpected {:?}", other),
        }
    }
    assert!(matches!(s.load_step(saved[0]), EventAction::Nothing));
    let redraws = s.load_redraws(&saved);
    assert_eq!(redraws.len(), 2);
    assert_eq!(redraws[0].entity, 100);
    assert_eq!(redraws[0].connections, [false, false, false, false, true, false]);
    assert_eq!(redraws[1].connections, [false, false, false, false, false, true]);
}

#[test]
fn aiming_and_logic_through_the_session() {
    let mut s = GameSession::new(assets());
    let switch = Voxel { kind: VoxelType::Component(ComponentVariants::Switch), position: IVec3::new(0, 0, 0), direction: 1, state: Bits16::all_ones() };
    s.record_voxel(switch, 1);
    s.record_voxel(v(VoxelType::Wire(0), 0, 0, 1), 2);
    s.aim(Some((IVec3::new(0, 0, 0), IVec3::new(0, 1, 0), true)));
    assert_eq!(s.player().hit_voxel, Some(switch));
    let sel = s.player().selected_voxel.unwrap();
    assert_eq!(sel.position, IVec3::new(0, 1, 0));
    assert_eq!(sel.kind, s.player().hotbar[0]);
    assert_eq!(s.player().selected_descriptor.as_ref().unwrap().voxel_id, s.player().hotbar[0]);
    s.aim(Some((IVec3::new(0, 0, 0), IVec3::new(0, 1, 0), false)));
    assert!(s.player().selected_voxel.is_none());
    let events = s.logic_tick();
    assert_eq!(events, vec![LogicEvent::UpdateVoxel { position: IVec3::new(0, 0, 1), new_state: Bits16::new(1) }]);
    let changed = s.apply_logic(&events);
    assert_eq!(changed.len(), 1);
    assert_eq!(changed[0].0, 2);
    assert!(s.logic_tick().is_empty());
}

#[test]
fn single_element_widgets() {
    let c = spawn_cursor_node();
    assert_eq!(c.elements.len(), 1);
    assert_eq!(c.elements[0].text.as_deref(), Some("+"));
    assert_eq!(c.elements[0].marker, UiMarker::Cursor);
    let d = spawn_debug_text();
    assert_eq!(d.elements[0].window, Some(GameUI::Debug));
    assert_eq!(d.elements[0].text.as_deref(), Some("Initializing debug info..."));
    let i = spawn_identifier();
    assert_eq!(i.elements[0].marker, UiMarker::VoxelIdentifier);
    let s = spawn_speed_indicator();
    assert_eq!(s.elements[0].marker, UiMarker::SpeedIndicator);
    let _markers = (Cursor, SpeedIndicator);
}

#[test]
fn exit_menu_tree() {
    let t = spawn_exit_menu();
    assert!(is_tree(&t));
    assert_eq!(t.elements.len(), 8);
    assert!(t.elements[0].hidden);
    assert_eq!(t.elements[0].window, Some(GameUI::ExitMenu));
    let actions: Vec<_> = t.elements.iter().filter_map(|e| e.action.clone()).collect();
    assert!(matches!(actions[..], [MenuAction::BackToGame, MenuAction::MainMenu, MenuAction::SaveAndQuit]));
}

#[test]
fn hotbar_and_inventory_trees() {
    let h = spawn_hotbar();
    assert!(is_tree(&h));
    assert_eq!(h.elements.len(), 19);
    for i in 0..9 {
        assert_eq!(h.elements[1 + 2 * i].marker, UiMarker::HotbarSlot(i));
        assert_eq!(h.elements[1 + 2 * i].window, Some(GameUI::Default));
        assert_eq!(h.elements[2 + 2 * i].parent, Some(1 + 2 * i));
    }
    let inv = spawn_inventory();
    assert!(is_tree(&inv));
    assert_eq!(inv.elements.len(), 33);
    assert_eq!(inv.elements[0].window, Some(GameUI::Inventory(0)));
    for i in 0..16 {
        assert!(matches!(inv.elements[1 + 2 * i].action, Some(MenuAction::InventorySlot(x)) if x == i));
        assert_eq!(inv.elements[2 + 2 * i].window, Some(GameUI::Inventory(i)));
    }
}

#[test]
fn clock_widget_tree() {
    let t = spawn_clock_widget();
    assert!(is_tree(&t));
    assert_eq!(t.elements.len(), 13);
    assert_eq!(t.elements[0].window, Some(GameUI::ClockWidget));
    assert_eq!(t.elements[1].text.as_deref(), Some("Clock Speed"));
    assert!(matches!(t.elements[2].action, Some(MenuAction::ClockSetting(0))));
    assert_eq!(t.elements[3].text.as_deref(), Some("Pause"));
    let labels: Vec<&str> = (0..4).map(|j| t.elements[6 + 2 * j].text.as_deref().unwrap()).collect();
    assert_eq!(labels, vec!["4", "16", "64", "256"]);
    assert!(matches!(t.elements[11].action, Some(MenuAction::ClockSetting(256))));
    assert_eq!(t.elements[11].style, UiStyle::SpeedButton(3));
}

#[test]
fn game_interface_tree() {
    let t = setup_ui();
    assert!(is_tree(&t));
    assert_eq!(t.elements.len(), 1 + 1 + 8 + 19 + 33 + 1 + 1);
    let roots: Vec<usize> = t.elements.iter().enumerate().filter(|(_, e)| e.parent == Some(0)).map(|(i, _)| i).collect();
    assert_eq!(roots, vec![1, 2, 10, 29, 62, 63]);
    assert_eq!(t.elements[3].parent, Some(2));
}

#[test]
fn main_menu_trees() {
    let m = spawn_main_ui();
    assert!(is_tree(&m));
    assert_eq!(m.elements.len(), 11);
    let n = spawn_new_game_ui();
    assert!(is_tree(&n));
    assert_eq!(n.elements[4].marker, UiMarker::TextInput);
    let names = vec!["alpha".to_string(), "beta".to_string()];
    let l = spawn_load_game_ui(&names);
    assert!(is_tree(&l));
    assert_eq!(l.elements.len(), 12);
    assert!(matches!(&l.elements[3].action, Some(MenuAction::LoadWorld(n)) if n == "alpha"));
    assert_eq!(l.elements[4].text.as_deref(), Some("alpha"));
    assert!(matches!(&l.elements[10].action, Some(MenuAction::DeleteWorld(n)) if n == "beta"));
    assert_eq!(l.elements[11].text.as_deref(), Some(" X "));
    let all = setup_main_menu(&names);
    assert!(is_tree(&all));
    assert_eq!(all.elements.len(), 11 + 5 + 12 + 1);
    assert_eq!(all.elements[11].parent, Some(0));
    assert_eq!(all.elements[16].parent, Some(0));
    assert_eq!(all.elements[28].parent, Some(0));
    let mut base = spawn_main_ui();
    graft(&mut base, spawn_cursor_node(), 2);
    assert_eq!(base.elements[11].parent, Some(2));
}

#[test]
fn save_then_reload_gives_back_the_world() {
    let mut s = GameSession::new(assets());
    let voxels = vec![
        v(VoxelType::Wire(2), 0, 0, 0),
        v(VoxelType::Structure(StructuralVariants::WhiteTile), 3, 0, 1),
        v(VoxelType::Component(ComponentVariants::Light), -2, 1, 0),
    ];
    for (i, x) in voxels.iter().enumerate() {
        assert!(s.record_voxel(*x, i as u64));
    }
    let world = match s.handle_event(&GameEvent::SaveWorld { world_name: "w".to_string() }) {
        EventAction::Save { world } => world,
        other => panic!("unexpected {:?}", other),
    };
    let mut fresh = GameSession::new(assets());
    for (i, x) in world.voxels.iter().enumerate() {
        match fresh.load_step(*x) {
            EventAction::Spawn { voxel, .. } => assert!(fresh.record_voxel(voxel, 50 + i as u64)),
            other => panic!("unexpected {:?}", other),
        }
    }
    assert_eq!(fresh.map().voxel_map, voxels);
}

#[test]
fn buttons_come_with_their_picture_or_label() {
    let mut t = vec![exit_menu_bundle()];
    assert!(t[0].hidden && t[0].window == Some(GameUI::ExitMenu));
    let b = spawn_button(&mut t, 0, MenuAction::Options);
    assert_eq!(b, 1);
    assert_eq!(t.len(), 3);
    assert!(matches!(t[1].action, Some(MenuAction::Options)));
    assert_eq!(t[2].parent, Some(1));
    assert_eq!(t[2].style, UiStyle::ButtonImage);
    let l = spawn_text_button(&mut t, 0, UiStyle::LoadButton, "go".to_string(), MenuAction::LoadGame);
    assert_eq!(l, 3);
    assert_eq!(t[4].text.as_deref(), Some("go"));
    assert_eq!(t[4].parent, Some(3));
}

#[test]
fn loading_records_every_voxel_with_its_entity() {
    let mut s = GameSession::new(assets());
    let existing = v(VoxelType::Structure(StructuralVariants::RedBrick), 9, 9, 9);
    assert!(s.record_voxel(existing, 1));
    let loaded = vec![
        v(VoxelType::Wire(4), 0, 0, 0),
        v(VoxelType::Component(ComponentVariants::Switch), 1, 0, 0),
        v(VoxelType::Structure(StructuralVariants::BlueTile), 0, 2, 0),
    ];
    for (i, x) in loaded.iter().enumerate() {
        assert!(s.record_voxel(*x, 20 + i as u64));
    }
    assert_eq!(s.map().voxel_map, vec![existing, loaded[0], loaded[1], loaded[2]]);
    assert_eq!(s.map().entity_map, vec![1, 20, 21, 22]);
    // A voxel whose position is taken is not recorded again.
    assert!(!s.record_voxel(v(VoxelType::Wire(1), 1, 0, 0), 30));
    assert_eq!(s.map().entity_map.len(), 4);
}

#[test]
fn texture_grids() {
    assert_eq!(voxel_atlas(), AtlasGrid { tile_width: 16, tile_height: 16, columns: 1, rows: 43 });
    assert_eq!(button_atlas(), AtlasGrid { tile_width: 144, tile_height: 32, columns: 1, rows: 16 });
}

use bits_and_blocks::bits::Bits16;
use bits_and_blocks::game::{
    scroll_hotbar, AudioEvent, CursorGrabMode, GameEvent, GameState, GameUI, HudSfx, MenuAction, Player,
    SimulationTimer, WorldSfx,
};
use bits_and_blocks::input::{InputEvent, PlayerInputContext};
use bits_and_blocks::logic::LogicEvent;
use bits_and_blocks::menu::{
    crosshair_state, exit_menu_actions, menu_button_press, menu_escape, update_color_audio, update_ui_visibility,
    ButtonColor, Interaction,
};
use bits_and_blocks::voxel::{ComponentVariants, IVec3, StructuralVariants, Voxel, VoxelType};
use bits_and_blocks::world::VoxelDefinition;

fn v(kind: VoxelType, x: i32, y: i32, z: i32, word: u16) -> Voxel {
    Voxel { kind, position: IVec3::new(x, y, z), direction: 1, state: Bits16::new(word) }
}

fn keys(which: &[usize]) -> [bool; 9] {
    let mut k = [false; 9];
    for &i in which {
        k[i] = true;
    }
    k
}

fn ctx(ui: GameUI, k: [bool; 9], place: bool, remove: bool, hit: Option<Voxel>, selected: Option<Voxel>) -> PlayerInputContext {
    let p = Player::default();
    PlayerInputContext::new(ui, true, k, place, remove, 3, hit, selected, None, 0, p.hotbar)
}

#[test]
fn default_player_has_first_kind_of_each_group() {
    let p = Player::default();
    assert_eq!(p.hotbar_selector, 0);
    assert_eq!(p.hotbar.len(), 9);
    for (g, k) in p.hotbar.iter().enumerate() {
        assert_eq!(k.as_pair(), (g, 0));
    }
    assert!(p.hit_voxel.is_none());
}

#[test]
fn simulation_speed_is_clamped() {
    let mut t = SimulationTimer::new();
    assert_eq!(t.rate(), 1);
    assert_eq!(t.ticks_per_second(), 4);
    assert_eq!(t.change_speed(1), 2);
    assert_eq!(t.ticks_per_second(), 16);
    assert_eq!(t.change_speed(10), 4);
    assert_eq!(t.ticks_per_second(), 256);
    assert_eq!(t.change_speed(-100), 0);
    assert_eq!(t.ticks_per_second(), 0);
    assert_eq!(t.change_speed(-1), 0);
}

#[test]
fn hotbar_scroll_wraps() {
    assert_eq!(scroll_hotbar(0, 1), 8);
    assert_eq!(scroll_hotbar(8, -1), 0);
    assert_eq!(scroll_hotbar(4, 1), 3);
    assert_eq!(scroll_hotbar(4, -1), 5);
    assert_eq!(scroll_hotbar(3, 0), 3);
}

#[test]
fn escape_opens_and_closes_the_exit_menu() {
    let mut c = ctx(GameUI::Default, keys(&[0]), false, false, None, None);
    c.process();
    assert_eq!(c.events.len(), 2);
    assert!(matches!(c.events[0], InputEvent::Game(GameEvent::UpdateCursorMode { mode: CursorGrabMode::Free, show_cursor: true, enable_input: false })));
    assert!(matches!(c.events[1], InputEvent::Game(GameEvent::ToggleUI { new_ui: GameUI::ExitMenu })));
    let mut c = ctx(GameUI::ExitMenu, keys(&[0]), false, false, None, None);
    c.process();
    assert!(matches!(c.events[0], InputEvent::Game(GameEvent::UpdateCursorMode { mode: CursorGrabMode::Locked, show_cursor: false, enable_input: true })));
    assert!(matches!(c.events[1], InputEvent::Game(GameEvent::ToggleUI { new_ui: GameUI::Default })));
}

#[test]
fn tab_opens_the_inventory_of_the_selected_group() {
    let mut c = ctx(GameUI::Default, keys(&[1]), false, false, None, None);
    c.process();
    assert_eq!(c.events.len(), 2);
    assert!(matches!(c.events[1], InputEvent::Game(GameEvent::ToggleUI { new_ui: GameUI::Inventory(8) })));
}

#[test]
fn speed_keys_request_speed_changes() {
    let mut c = ctx(GameUI::Default, keys(&[4]), false, false, None, None);
    c.process();
    assert!(matches!(c.events[..], [InputEvent::Game(GameEvent::SpeedChange { change: -1 })]));
    let mut c = ctx(GameUI::Default, keys(&[5]), false, false, None, None);
    c.process();
    assert!(matches!(c.events[..], [InputEvent::Game(GameEvent::SpeedChange { change: 1 })]));
}

#[test]
fn placing_turns_the_voxel_and_redraws_around_it() {
    let sel = v(VoxelType::Wire(0), 2, 1, 2, 0);
    let mut c = ctx(GameUI::Default, keys(&[]), true, false, None, Some(sel));
    c.process();
    assert_eq!(c.events.len(), 3);
    assert!(matches!(c.events[0], InputEvent::Audio(AudioEvent::World(WorldSfx::Place, p)) if p == sel.position));
    match &c.events[1] {
        InputEvent::Game(GameEvent::PlaceBlock { voxel }) => {
            assert_eq!(voxel.direction, 3);
            assert_eq!(voxel.position, sel.position);
        },
        other => panic!("unexpected {:?}", other),
    }
    match &c.events[2] {
        InputEvent::Game(GameEvent::UpdateMesh { updates }) => assert_eq!(updates[0], IVec3::new(3, 1, 2)),
        other => panic!("unexpected {:?}", other),
    }
}

#[test]
fn placing_in_a_menu_does_nothing() {
    let sel = v(VoxelType::Wire(0), 2, 1, 2, 0);
    let mut c = ctx(GameUI::ExitMenu, keys(&[]), true, true, Some(sel), Some(sel));
    c.process();
    assert!(c.events.is_empty());
}

#[test]
fn removing_the_voxel_hit() {
    let hit = v(VoxelType::Structure(StructuralVariants::RedBrick), 0, 0, 0, 0);
    let mut c = ctx(GameUI::Default, keys(&[]), false, true, Some(hit), None);
    c.process();
    assert_eq!(c.events.len(), 3);
    assert!(matches!(c.events[1], InputEvent::Game(GameEvent::RemoveBlock { position }) if position == hit.position));
}

#[test]
fn middle_click_copies_the_kind_hit() {
    let hit = v(VoxelType::Wire(7), 0, 0, 0, 0);
    let aimed = v(VoxelType::Structure(StructuralVariants::BrownBrick), 0, 1, 0, 0);
    let mut c = ctx(GameUI::Default, keys(&[8]), false, false, Some(hit), Some(aimed));
    c.selected_descriptor = Some(VoxelDefinition { voxel_id: VoxelType::Structure(StructuralVariants::BrownBrick), name: "Brown Brick".to_string() });
    c.process();
    match &c.events[..] {
        [InputEvent::Game(GameEvent::ModifyPlayer { player_modified })] => {
            assert_eq!(player_modified.hotbar_selector, 2);
            assert_eq!(player_modified.hotbar[2], VoxelType::Wire(7));
            assert_eq!(player_modified.hotbar[0].as_pair(), (0, 0));
            assert_eq!(player_modified.hit_voxel, Some(hit));
            assert_eq!(player_modified.selected_voxel, Some(aimed));
            assert_eq!(player_modified.selected_descriptor.as_ref().unwrap().name, "Brown Brick");
        },
        other => panic!("unexpected {:?}", other),
    }
}

#[test]
fn switches_toggle_and_buttons_press() {
    let switch_off = v(VoxelType::Component(ComponentVariants::Switch), 1, 0, 0, 0);
    let mut c = ctx(GameUI::Default, keys(&[6]), false, false, Some(switch_off), None);
    c.process();
    assert!(matches!(c.events[..], [InputEvent::Logic(LogicEvent::UpdateVoxel { new_state, .. })] if new_state.value() == 0xffff));
    let switch_on = v(VoxelType::Component(ComponentVariants::Switch), 1, 0, 0, 0xffff);
    let mut c = ctx(GameUI::Default, keys(&[6]), false, false, Some(switch_on), None);
    c.process();
    assert!(matches!(c.events[..], [InputEvent::Logic(LogicEvent::UpdateVoxel { new_state, .. })] if new_state.value() == 0));
    let button = v(VoxelType::Component(ComponentVariants::Button), 1, 0, 0, 0);
    let mut c = ctx(GameUI::Default, keys(&[6]), false, false, Some(button), None);
    c.process();
    assert!(matches!(c.events[..], [InputEvent::Logic(LogicEvent::UpdateVoxel { new_state, .. })] if new_state.value() == 0xffff));
}

#[test]
fn interacting_with_a_clock_opens_its_widget() {
    let clock = v(VoxelType::Component(ComponentVariants::Clock), 1, 0, 0, 0);
    let mut c = ctx(GameUI::Default, keys(&[6]), false, false, Some(clock), None);
    c.process();
    assert_eq!(c.events.len(), 2);
    assert!(matches!(c.events[1], InputEvent::Game(GameEvent::ToggleUI { new_ui: GameUI::ClockWidget })));
}

#[test]
fn button_colours_and_sounds() {
    assert_eq!(update_color_audio(Interaction::Pressed), (ButtonColor::Pressed, Some(HudSfx::Click)));
    assert_eq!(update_color_audio(Interaction::Hovered), (ButtonColor::Hover, Some(HudSfx::Hover)));
    assert_eq!(update_color_audio(Interaction::Idle), (ButtonColor::Default, None));
}

#[test]
fn menu_buttons() {
    let player = Player::default();
    let name = String::from("world");
    let empty = String::new();
    let r = menu_button_press(&MenuAction::LoadWorld("alpha".to_string()), &name, &player);
    assert_eq!(r.events.len(), 3);
    assert!(matches!(&r.events[1], GameEvent::LoadWorld { world_name } if world_name == "alpha"));
    assert!(matches!(r.events[2], GameEvent::StateChange { new_state: GameState::InGame }));
    let r = menu_button_press(&MenuAction::LoadWorld(String::new()), &name, &player);
    assert!(r.events.is_empty());
    let r = menu_button_press(&MenuAction::DeleteWorld("alpha".to_string()), &name, &player);
    assert_eq!(r.events.len(), 4);
    assert!(matches!(r.events[2], GameEvent::Skip));
    let r = menu_button_press(&MenuAction::CreateWorld, &empty, &player);
    assert!(r.refused && r.events.is_empty());
    let r = menu_button_press(&MenuAction::CreateWorld, &name, &player);
    assert!(!r.refused && r.events.len() == 2);
    let r = menu_button_press(&MenuAction::QuitGame, &name, &player);
    assert!(r.exit && r.events.is_empty());
    let r = menu_button_press(&MenuAction::SaveAndQuit, &name, &player);
    assert!(r.exit);
    assert!(matches!(&r.events[..], [GameEvent::SaveWorld { world_name }] if world_name == "world"));
    let r = menu_button_press(&MenuAction::ClockSetting(4), &name, &player);
    assert!(r.events.is_empty() && !r.exit);
}

#[test]
fn inventory_slot_sets_the_selected_hotbar_kind() {
    let mut player = Player::default();
    let hit = v(VoxelType::Wire(3), 4, 0, 0, 0);
    player.hit_voxel = Some(hit);
    player.hotbar_selector = 2;
    let name = String::new();
    // Group 2 holds sixteen wires: slot 5 is wire 5.
    let r = menu_button_press(&MenuAction::InventorySlot(5), &name, &player);
    match &r.events[..] {
        [GameEvent::ModifyPlayer { player_modified: p }] => {
            assert_eq!(p.hotbar_selector, 2);
            assert_eq!(p.hotbar[2], VoxelType::Wire(5));
            assert_eq!(p.hotbar[0], player.hotbar[0]);
            assert_eq!(p.hit_voxel, Some(hit));
        },
        other => panic!("unexpected {:?}", other),
    }
    // Group 1 holds one kind: every slot picks it.
    player.hotbar_selector = 1;
    let r = menu_button_press(&MenuAction::InventorySlot(12), &name, &player);
    match &r.events[..] {
        [GameEvent::ModifyPlayer { player_modified: p }] => {
            assert_eq!(p.hotbar_selector, 1);
            assert_eq!(p.hotbar[1], VoxelType::BundledWire);
        },
        other => panic!("unexpected {:?}", other),
    }
}

#[test]
fn escape_in_a_main_menu_window_returns_to_the_main_screen() {
    for ui in [GameUI::NewGame, GameUI::LoadGame, GameUI::Options] {
        assert!(matches!(menu_escape(ui, true), Some(GameEvent::ToggleUI { new_ui: GameUI::MainScreen })));
        assert!(menu_escape(ui, false).is_none());
    }
    assert!(menu_escape(GameUI::Inventory(4), true).is_none());
    assert!(menu_escape(GameUI::Default, true).is_none());
    assert!(menu_escape(GameUI::ExitMenu, true).is_none());
    assert!(menu_escape(GameUI::MainScreen, true).is_none());
}

#[test]
fn window_visibility_rules() {
    assert!(update_ui_visibility(GameUI::Default, GameUI::Default));
    assert!(!update_ui_visibility(GameUI::Default, GameUI::ExitMenu));
    assert!(update_ui_visibility(GameUI::Inventory(4), GameUI::Inventory(3)));
    assert!(!update_ui_visibility(GameUI::Inventory(4), GameUI::Inventory(4)));
    assert!(update_ui_visibility(GameUI::Inventory(4), GameUI::Default));
    assert!(update_ui_visibility(GameUI::ExitMenu, GameUI::ExitMenu));
}

#[test]
fn exit_menu_has_three_buttons() {
    let a = exit_menu_actions();
    assert_eq!(a.len(), 3);
    assert!(matches!(a[0], MenuAction::BackToGame));
    assert!(matches!(a[1], MenuAction::MainMenu));
    assert!(matches!(a[2], MenuAction::SaveAndQuit));
}

#[test]
fn crosshair_prompts_over_switches_and_buttons() {
    assert_eq!(crosshair_state(Some(VoxelType::Component(ComponentVariants::Switch))), ("E", true));
    assert_eq!(crosshair_state(Some(VoxelType::Component(ComponentVariants::Button))), ("E", true));
    assert_eq!(crosshair_state(Some(VoxelType::Component(ComponentVariants::Light))), ("+", false));
    assert_eq!(crosshair_state(None), ("+", false));
}

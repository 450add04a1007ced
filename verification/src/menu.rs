use vstd::prelude::*;

use crate::game::{CursorGrabMode, GameEvent, GameState, GameUI, HudSfx, MenuAction, Player, PlayerModel};
use crate::voxel::{
    ComponentVariants, VoxelType, kind_of_pair, subset_size, subset_size_of, INVENTORY_SIZE,
};
use crate::world::{VoxelMap, asset_for};

verus! {

/// How a button is pressed.
#[derive(Clone, Copy, Debug, PartialEq, Eq, Structural)]
pub enum Interaction {
    Pressed,
    Hovered,
    Idle,
}

/// The colour a button is painted.
#[derive(Clone, Copy, Debug, PartialEq, Eq, Structural)]
pub enum ButtonColor {
    Pressed,
    Hover,
    Default,
    /// The refusal colour: a new world without a name.
    Refused,
}

/// The colour and the sound of a button in a given interaction: pressed
/// clicks, hovered hums, idle is silent.
pub fn update_color_audio(interaction: Interaction) -> (r: (ButtonColor, Option<HudSfx>))
    ensures
        r == match interaction {
            Interaction::Pressed => (ButtonColor::Pressed, Some(HudSfx::Click)),
            Interaction::Hovered => (ButtonColor::Hover, Some(HudSfx::Hover)),
            Interaction::Idle => (ButtonColor::Default, None::<HudSfx>),
        },
{
    match interaction {
        Interaction::Pressed => (ButtonColor::Pressed, Some(HudSfx::Click)),
        Interaction::Hovered => (ButtonColor::Hover, Some(HudSfx::Hover)),
        Interaction::Idle => (ButtonColor::Default, None),
    }
}

/// What pressing a menu button does: the requests it sends, whether the game
/// quits, and whether the button turns to the refusal colour.
pub struct MenuOutcome {
    pub events: Vec<GameEvent>,
    pub exit: bool,
    pub refused: bool,
}

/// A model of a request, for contracts.
pub enum MenuReq {
    ToggleUI(GameUI),
    StateChange(GameState),
    LoadWorld(Seq<char>),
    DeleteWorld(Seq<char>),
    SaveWorld(Seq<char>),
    Cursor(CursorGrabMode, bool, bool),
    ModifyPlayer(PlayerModel),
    Skip,
    Other,
}

pub open spec fn menu_req_of(e: GameEvent) -> MenuReq {
    match e {
        GameEvent::ToggleUI { new_ui } => MenuReq::ToggleUI(new_ui),
        GameEvent::StateChange { new_state } => MenuReq::StateChange(new_state),
        GameEvent::LoadWorld { world_name } => MenuReq::LoadWorld(world_name@),
        GameEvent::DeleteWorld { world_name } => MenuReq::DeleteWorld(world_name@),
        GameEvent::SaveWorld { world_name } => MenuReq::SaveWorld(world_name@),
        GameEvent::UpdateCursorMode { mode, show_cursor, enable_input } => MenuReq::Cursor(
            mode,
            show_cursor,
            enable_input,
        ),
        GameEvent::ModifyPlayer { player_modified } => MenuReq::ModifyPlayer(player_modified@),
        GameEvent::Skip => MenuReq::Skip,
        _ => MenuReq::Other,
    }
}

/// The inventory sub-index a slot stands for: the slot, limited to the last
/// kind of the selected group.
pub open spec fn slot_sub_index(slot: usize, group: usize) -> usize {
    let size = subset_size(group as int);
    let last: int = if size == 0 { 0 } else { size - 1 };
    if slot < last { slot } else { last as usize }
}

/// The requests a pressed menu button sends, with the world name typed and
/// the player.
pub open spec fn press_reqs(action: MenuAction, world_name: Seq<char>, player: PlayerModel) -> Seq<MenuReq> {
    match action {
        MenuAction::LoadWorld(name) => if name@.len() > 0 {
            seq![
                MenuReq::ToggleUI(GameUI::Default),
                MenuReq::LoadWorld(name@),
                MenuReq::StateChange(GameState::InGame),
            ]
        } else {
            Seq::empty()
        },
        MenuAction::DeleteWorld(name) => seq![
            MenuReq::DeleteWorld(name@),
            MenuReq::StateChange(GameState::Loading),
            MenuReq::Skip,
            MenuReq::ToggleUI(GameUI::LoadGame),
        ],
        MenuAction::NewGame => seq![MenuReq::ToggleUI(GameUI::NewGame)],
        MenuAction::LoadGame => seq![MenuReq::ToggleUI(GameUI::LoadGame)],
        MenuAction::Options => seq![MenuReq::ToggleUI(GameUI::Options)],
        MenuAction::CreateWorld => if world_name.len() > 0 {
            seq![MenuReq::ToggleUI(GameUI::Default), MenuReq::StateChange(GameState::InGame)]
        } else {
            Seq::empty()
        },
        MenuAction::BackToGame => seq![
            MenuReq::ToggleUI(GameUI::Default),
            MenuReq::Cursor(CursorGrabMode::Locked, false, true),
        ],
        MenuAction::MainMenu => seq![
            MenuReq::SaveWorld(world_name),
            MenuReq::StateChange(GameState::Loading),
        ],
        MenuAction::SaveAndQuit => seq![MenuReq::SaveWorld(world_name)],
        MenuAction::InventorySlot(slot) => {
            let sel = player.hotbar_selector;
            match kind_of_pair(sel, slot_sub_index(slot, sel)) {
                Some(k) => seq![
                    MenuReq::ModifyPlayer(
                        PlayerModel {
                            hit_voxel: player.hit_voxel,
                            selected_voxel: player.selected_voxel,
                            selected_descriptor: player.selected_descriptor,
                            hotbar_selector: sel,
                            hotbar: player.hotbar.update(sel as int, k),
                        },
                    ),
                ],
                None => Seq::empty(),
            }
        },
        _ => Seq::empty(),
    }
}

/// Decides what a pressed menu button does. The world name is the one typed
/// for a new world.
pub fn menu_button_press(action: &MenuAction, world_name: &String, player: &Player) -> (r: MenuOutcome)
    requires
        action is InventorySlot ==> player.hotbar_selector < 9 && player.hotbar_selector < player.hotbar@.len(),
    ensures
        r.events@.map_values(|e: GameEvent| menu_req_of(e)) == press_reqs(*action, world_name@, player@),
        r.exit == (action is QuitGame || action is SaveAndQuit),
        r.refused == (action is CreateWorld && world_name@.len() == 0),
{
    let mut events: Vec<GameEvent> = Vec::new();
    let mut exit = false;
    let mut refused = false;
    match action {
        MenuAction::LoadWorld(name) => {
            if !name.as_str().is_empty() {
                events.push(GameEvent::ToggleUI { new_ui: GameUI::Default });
                events.push(GameEvent::LoadWorld { world_name: name.clone() });
                events.push(GameEvent::StateChange { new_state: GameState::InGame });
            }
        },
        MenuAction::DeleteWorld(name) => {
            events.push(GameEvent::DeleteWorld { world_name: name.clone() });
            events.push(GameEvent::StateChange { new_state: GameState::Loading });
            events.push(GameEvent::Skip);
            events.push(GameEvent::ToggleUI { new_ui: GameUI::LoadGame });
        },
        MenuAction::NewGame => {
            events.push(GameEvent::ToggleUI { new_ui: GameUI::NewGame });
        },
        MenuAction::LoadGame => {
            events.push(GameEvent::ToggleUI { new_ui: GameUI::LoadGame });
        },
        MenuAction::Options => {
            events.push(GameEvent::ToggleUI { new_ui: GameUI::Options });
        },
        MenuAction::QuitGame => {
            exit = true;
        },
        MenuAction::CreateWorld => {
            if !world_name.as_str().is_empty() {
                events.push(GameEvent::ToggleUI { new_ui: GameUI::Default });
                events.push(GameEvent::StateChange { new_state: GameState::InGame });
            } else {
                refused = true;
            }
        },
        MenuAction::BackToGame => {
            events.push(GameEvent::ToggleUI { new_ui: GameUI::Default });
            events.push(
                GameEvent::UpdateCursorMode {
                    mode: CursorGrabMode::Locked,
                    show_cursor: false,
                    enable_input: true,
                },
            );
        },
        MenuAction::MainMenu => {
            events.push(GameEvent::SaveWorld { world_name: world_name.clone() });
            events.push(GameEvent::StateChange { new_state: GameState::Loading });
        },
        MenuAction::SaveAndQuit => {
            events.push(GameEvent::SaveWorld { world_name: world_name.clone() });
            exit = true;
        },
        MenuAction::InventorySlot(slot_id) => {
            let sel = player.hotbar_selector;
            let subset = subset_size_of(sel);
            let last = if subset > 0 { subset - 1 } else { 0 };
            let subindex = if *slot_id < last { *slot_id } else { last };
            match VoxelType::try_from((sel, subindex)) {
                Ok(new_kind) => {
                    let mut updated_player = player.duplicate();
                    updated_player.hotbar.set(sel, new_kind);
                    events.push(GameEvent::ModifyPlayer { player_modified: updated_player });
                },
                Err(_) => {},
            }
        },
        MenuAction::ClockSetting(_) => {},
    }
    assert(events@.map_values(|e: GameEvent| menu_req_of(e)) =~= press_reqs(
        *action,
        world_name@,
        player@,
    ));
    MenuOutcome { events, exit, refused }
}

/// Escape in a window of the main menu (new game, load game, options)
/// returns to the main screen; elsewhere it does nothing here.
pub fn menu_escape(ui: GameUI, escape_pressed: bool) -> (r: Option<GameEvent>)
    ensures
        r is Some == (escape_pressed && (ui is NewGame || ui is LoadGame || ui is Options)),
        r matches Some(e) ==> menu_req_of(e) == MenuReq::ToggleUI(GameUI::MainScreen),
{
    let in_main_menu = match ui {
        GameUI::NewGame => true,
        GameUI::LoadGame => true,
        GameUI::Options => true,
        _ => false,
    };
    if escape_pressed && in_main_menu {
        Some(GameEvent::ToggleUI { new_ui: GameUI::MainScreen })
    } else {
        None
    }
}

/// Whether an element tagged with window `ui` shows while window `current`
/// is up: its own window shows; inside an inventory of `y` slots the slots
/// below `y` show, and the default hotbar stays.
pub open spec fn ui_visible_spec(current: GameUI, ui: GameUI) -> bool {
    match (current, ui) {
        (GameUI::Inventory(y), GameUI::Inventory(x)) => x < y,
        (GameUI::Inventory(_), GameUI::Default) => true,
        _ => current == ui,
    }
}

/// Whether an element tagged with window `ui` shows while window `current`
/// is up.
pub fn update_ui_visibility(current: GameUI, ui: GameUI) -> (r: bool)
    ensures
        r == ui_visible_spec(current, ui),
{
    match (current, ui) {
        (GameUI::Inventory(y), GameUI::Inventory(x)) => x < y,
        (GameUI::Inventory(_), GameUI::Default) => true,
        _ => current == ui,
    }
}

/// Every window shows its own elements, except that an inventory of size 0
/// shows none of its slots.
pub proof fn lemma_own_window_visible(ui: GameUI)
    requires
        !(ui is Inventory),
    ensures
        ui_visible_spec(ui, ui),
{
}

/// The buttons of the exit menu, top to bottom.
pub fn exit_menu_actions() -> (r: Vec<MenuAction>)
    ensures
        r@.len() == 3,
        r@[0] is BackToGame,
        r@[1] is MainMenu,
        r@[2] is SaveAndQuit,
{
    let mut v: Vec<MenuAction> = Vec::new();
    v.push(MenuAction::BackToGame);
    v.push(MenuAction::MainMenu);
    v.push(MenuAction::SaveAndQuit);
    v
}

/// The voxel kind an inventory slot shows for the selected group: the slot's
/// kind, or the group's first kind for a slot beyond the group.
pub open spec fn inventory_slot_kind(group: usize, slot: usize) -> Option<VoxelType> {
    kind_of_pair(group, if slot >= subset_size(group as int) { 0 } else { slot })
}

/// The texture row an inventory slot shows, if any.
pub fn update_inventory(voxel_map: &VoxelMap, group: usize, slot_id: usize) -> (r: Option<usize>)
    requires
        group < 9,
    ensures
        r == match inventory_slot_kind(group, slot_id) {
            Some(k) => match asset_for(voxel_map.asset_map@, k) {
                Some(a) => Some(a.texture_row),
                None => None::<usize>,
            },
            None => None::<usize>,
        },
{
    let subset = if slot_id >= subset_size_of(group) { 0 } else { slot_id };
    match VoxelType::try_from((group, subset)) {
        Ok(kind) => match voxel_map.asset(kind) {
            Some(asset) => Some(asset.texture_row),
            None => None,
        },
        Err(_) => None,
    }
}

/// What a hotbar slot shows: whether it is outlined as selected, and the
/// texture row of its kind (if drawing data is recorded).
pub fn update_hotbar(voxel_map: &VoxelMap, hotbar_selector: usize, hotbar: &Vec<VoxelType>, index: usize) -> (r: (bool, Option<usize>))
    requires
        index < hotbar@.len(),
    ensures
        r.0 == (index == hotbar_selector),
        r.1 == match asset_for(voxel_map.asset_map@, hotbar@[index as int]) {
            Some(a) => Some(a.texture_row),
            None => None::<usize>,
        },
{
    let selected = index == hotbar_selector;
    let kind = hotbar[index];
    let row = match voxel_map.asset(kind) {
        Some(asset) => Some(asset.texture_row),
        None => None,
    };
    (selected, row)
}

/// Whether the voxel under the crosshair can be used with the interact key.
pub open spec fn is_interactive(hit: Option<VoxelType>) -> bool {
    hit == Some(VoxelType::Component(ComponentVariants::Button)) || hit == Some(
        VoxelType::Component(ComponentVariants::Switch),
    )
}

/// What the crosshair shows: the interact prompt `E` over a button or a
/// switch (drawn highlighted), the plain cross `+` otherwise.
pub fn crosshair_state(hit: Option<VoxelType>) -> (r: (&'static str, bool))
    ensures
        r.1 == is_interactive(hit),
        r.0@ == if is_interactive(hit) { "E"@ } else { "+"@ },
{
    match hit {
        Some(VoxelType::Component(ComponentVariants::Button)) => ("E", true),
        Some(VoxelType::Component(ComponentVariants::Switch)) => ("E", true),
        _ => ("+", false),
    }
}

} // verus!

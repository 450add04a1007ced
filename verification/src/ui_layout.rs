use vstd::prelude::*;

use crate::game::{GameUI, MenuAction};
use crate::menu::exit_menu_actions;
use crate::text::{decimal, decimal_string};
use crate::voxel::{HOTBAR_SIZE, INVENTORY_SIZE, NUM_VOXELS};

verus! {

/// Marker of the crosshair element.
#[derive(Clone, Copy, Debug, PartialEq, Eq, Structural)]
pub struct Cursor;

/// Marker of the element that shows the simulation speed.
#[derive(Clone, Copy, Debug, PartialEq, Eq, Structural)]
pub struct SpeedIndicator;

/// The look of an interface element; the game loop draws each look.
#[derive(Clone, Copy, Debug, PartialEq, Eq, Structural)]
pub enum UiStyle {
    GameRoot,
    Crosshair,
    ExitMenu,
    ButtonColumn,
    MenuButton,
    ButtonImage,
    DebugText,
    HotbarBar,
    HotbarSlot,
    HotbarImage,
    Identifier,
    InventoryGrid,
    InventorySlot,
    InventoryIcon,
    SpeedIndicator,
    ClockPanel,
    ClockHeader,
    PauseButton,
    SpeedList,
    /// The speed button at this place in the list.
    SpeedButton(usize),
    ButtonLabel,
    ScreenRoot,
    Popup,
    MainButtons,
    NewGameButtons,
    TextInput,
    SaveList,
    SaveRow,
    LoadButton,
    DeleteButton,
}

/// What the game's systems find an element by.
#[derive(Clone, Copy, Debug, PartialEq, Eq, Structural)]
pub enum UiMarker {
    Plain,
    Cursor,
    SpeedIndicator,
    HotbarSlot(usize),
    DebugText,
    VoxelIdentifier,
    TextInput,
}

/// One element of an interface tree.
#[derive(Clone, Debug)]
pub struct UiElement {
    /// The index of the parent element; `None` for the root.
    pub parent: Option<usize>,
    pub style: UiStyle,
    pub text: Option<String>,
    pub action: Option<MenuAction>,
    /// The window the element belongs to, for the visibility rules.
    pub window: Option<GameUI>,
    pub marker: UiMarker,
    /// Whether the element starts hidden.
    pub hidden: bool,
}

/// An interface tree: element 0 is the root; every other element comes after
/// its parent.
pub struct UiTree {
    pub elements: Vec<UiElement>,
}

/// A menu action as a value.
pub enum ActionView {
    NewGame,
    LoadGame,
    LoadWorld(Seq<char>),
    DeleteWorld(Seq<char>),
    Options,
    QuitGame,
    CreateWorld,
    BackToGame,
    MainMenu,
    SaveAndQuit,
    InventorySlot(usize),
    ClockSetting(usize),
}

/// An interface element as a value.
pub struct UiView {
    pub parent: Option<usize>,
    pub style: UiStyle,
    pub text: Option<Seq<char>>,
    pub action: Option<ActionView>,
    pub window: Option<GameUI>,
    pub marker: UiMarker,
    pub hidden: bool,
}

pub open spec fn action_view(a: MenuAction) -> ActionView {
    match a {
        MenuAction::NewGame => ActionView::NewGame,
        MenuAction::LoadGame => ActionView::LoadGame,
        MenuAction::LoadWorld(n) => ActionView::LoadWorld(n@),
        MenuAction::DeleteWorld(n) => ActionView::DeleteWorld(n@),
        MenuAction::Options => ActionView::Options,
        MenuAction::QuitGame => ActionView::QuitGame,
        MenuAction::CreateWorld => ActionView::CreateWorld,
        MenuAction::BackToGame => ActionView::BackToGame,
        MenuAction::MainMenu => ActionView::MainMenu,
        MenuAction::SaveAndQuit => ActionView::SaveAndQuit,
        MenuAction::InventorySlot(i) => ActionView::InventorySlot(i),
        MenuAction::ClockSetting(i) => ActionView::ClockSetting(i),
    }
}

pub open spec fn element_view(e: UiElement) -> UiView {
    UiView {
        parent: e.parent,
        style: e.style,
        text: match e.text {
            Some(t) => Some(t@),
            None => None,
        },
        action: match e.action {
            Some(a) => Some(action_view(a)),
            None => None,
        },
        window: e.window,
        marker: e.marker,
        hidden: e.hidden,
    }
}

/// The elements of `t` as values.
pub open spec fn tree_view(t: UiTree) -> Seq<UiView> {
    t.elements@.map_values(|e: UiElement| element_view(e))
}

/// An element as a value.
pub open spec fn el(
    parent: Option<usize>,
    style: UiStyle,
    text: Option<Seq<char>>,
    action: Option<ActionView>,
    window: Option<GameUI>,
    marker: UiMarker,
    hidden: bool,
) -> UiView {
    UiView { parent, style, text, action, window, marker, hidden }
}

/// `v` is a tree: it has a root first and every other element comes after
/// its parent.
pub open spec fn is_tree(v: Seq<UiView>) -> bool {
    &&& v.len() > 0
    &&& v[0].parent is None
    &&& forall|i: int| 0 < i < v.len() ==> ((#[trigger] v[i]).parent matches Some(p) && p < i)
}

/// A copy of `a`.
fn copy_action(a: &MenuAction) -> (r: MenuAction)
    ensures
        action_view(r) == action_view(*a),
{
    match a {
        MenuAction::NewGame => MenuAction::NewGame,
        MenuAction::LoadGame => MenuAction::LoadGame,
        MenuAction::LoadWorld(n) => MenuAction::LoadWorld(n.clone()),
        MenuAction::DeleteWorld(n) => MenuAction::DeleteWorld(n.clone()),
        MenuAction::Options => MenuAction::Options,
        MenuAction::QuitGame => MenuAction::QuitGame,
        MenuAction::CreateWorld => MenuAction::CreateWorld,
        MenuAction::BackToGame => MenuAction::BackToGame,
        MenuAction::MainMenu => MenuAction::MainMenu,
        MenuAction::SaveAndQuit => MenuAction::SaveAndQuit,
        MenuAction::InventorySlot(i) => MenuAction::InventorySlot(*i),
        MenuAction::ClockSetting(i) => MenuAction::ClockSetting(*i),
    }
}

fn push_el(
    t: &mut Vec<UiElement>,
    parent: Option<usize>,
    style: UiStyle,
    text: Option<String>,
    action: Option<MenuAction>,
    window: Option<GameUI>,
    marker: UiMarker,
    hidden: bool,
) -> (index: usize)
    requires
        old(t)@.len() < usize::MAX,
    ensures
        index == old(t)@.len(),
        final(t)@ == old(t)@.push(UiElement { parent, style, text, action, window, marker, hidden }),
{
    let index = t.len();
    t.push(UiElement { parent, style, text, action, window, marker, hidden });
    index
}

/// Adds a button with the given action and an image child under `parent`;
/// returns the index of the button.
pub fn spawn_button(t: &mut Vec<UiElement>, parent: usize, action: MenuAction) -> (index: usize)
    requires
        old(t)@.len() + 2 < usize::MAX,
    ensures
        index == old(t)@.len(),
        final(t)@.len() == old(t)@.len() + 2,
        final(t)@.map_values(|e: UiElement| element_view(e)) == old(t)@.map_values(
            |e: UiElement| element_view(e),
        ) + seq![
            el(Some(parent), UiStyle::MenuButton, None, Some(action_view(action)), None, UiMarker::Plain, false),
            el(Some(index), UiStyle::ButtonImage, None, None, None, UiMarker::Plain, false),
        ],
{
    let ghost before = t@;
    let b = push_el(t, Some(parent), UiStyle::MenuButton, None, Some(action), None, UiMarker::Plain, false);
    push_el(t, Some(b), UiStyle::ButtonImage, None, None, None, UiMarker::Plain, false);
    assert(t@.map_values(|e: UiElement| element_view(e)) =~= before.map_values(
        |e: UiElement| element_view(e),
    ) + seq![
        el(Some(parent), UiStyle::MenuButton, None, Some(action_view(action)), None, UiMarker::Plain, false),
        el(Some(b), UiStyle::ButtonImage, None, None, None, UiMarker::Plain, false),
    ]);
    b
}

/// Adds a button with the given look and action and a text label child under
/// `parent`; returns the index of the button.
pub fn spawn_text_button(t: &mut Vec<UiElement>, parent: usize, style: UiStyle, text: String, action: MenuAction) -> (index: usize)
    requires
        old(t)@.len() + 2 < usize::MAX,
    ensures
        index == old(t)@.len(),
        final(t)@.len() == old(t)@.len() + 2,
        final(t)@.map_values(|e: UiElement| element_view(e)) == old(t)@.map_values(
            |e: UiElement| element_view(e),
        ) + seq![
            el(Some(parent), style, None, Some(action_view(action)), None, UiMarker::Plain, false),
            el(Some(index), UiStyle::ButtonLabel, Some(text@), None, None, UiMarker::Plain, false),
        ],
{
    let ghost before = t@;
    let ghost tv = text@;
    let b = push_el(t, Some(parent), style, None, Some(action), None, UiMarker::Plain, false);
    push_el(t, Some(b), UiStyle::ButtonLabel, Some(text), None, None, UiMarker::Plain, false);
    assert(t@.map_values(|e: UiElement| element_view(e)) =~= before.map_values(
        |e: UiElement| element_view(e),
    ) + seq![
        el(Some(parent), style, None, Some(action_view(action)), None, UiMarker::Plain, false),
        el(Some(b), UiStyle::ButtonLabel, Some(tv), None, None, UiMarker::Plain, false),
    ]);
    b
}

/// The crosshair: a `+` at the centre of the screen.
pub fn spawn_cursor_node() -> (r: UiTree)
    ensures
        tree_view(r) == cursor_view(),
        is_tree(tree_view(r)),
{
    let mut t: Vec<UiElement> = Vec::new();
    push_el(&mut t, None, UiStyle::Crosshair, Some(String::from_str("+")), None, None, UiMarker::Cursor, false);
    let r = UiTree { elements: t };
    assert(tree_view(r) =~= seq![el(None, UiStyle::Crosshair, Some("+"@), None, None, UiMarker::Cursor, false)]);
    r
}

/// The debug text panel of the debug window.
pub fn spawn_debug_text() -> (r: UiTree)
    ensures
        tree_view(r) == debug_text_view(),
        is_tree(tree_view(r)),
{
    let mut t: Vec<UiElement> = Vec::new();
    push_el(
        &mut t,
        None,
        UiStyle::DebugText,
        Some(String::from_str("Initializing debug info...")),
        None,
        Some(GameUI::Debug),
        UiMarker::DebugText,
        false,
    );
    let r = UiTree { elements: t };
    assert(tree_view(r) =~= seq![
        el(None, UiStyle::DebugText, Some("Initializing debug info..."@), None, Some(GameUI::Debug), UiMarker::DebugText, false),
    ]);
    r
}

/// The text that names the voxel kind selected in the hotbar.
pub fn spawn_identifier() -> (r: UiTree)
    ensures
        tree_view(r) == identifier_view(),
        is_tree(tree_view(r)),
{
    let mut t: Vec<UiElement> = Vec::new();
    push_el(
        &mut t,
        None,
        UiStyle::Identifier,
        Some(String::from_str("Voxel Identifier")),
        None,
        Some(GameUI::Default),
        UiMarker::VoxelIdentifier,
        false,
    );
    let r = UiTree { elements: t };
    assert(tree_view(r) =~= seq![
        el(None, UiStyle::Identifier, Some("Voxel Identifier"@), None, Some(GameUI::Default), UiMarker::VoxelIdentifier, false),
    ]);
    r
}

/// The image that shows the simulation speed.
pub fn spawn_speed_indicator() -> (r: UiTree)
    ensures
        is_tree(tree_view(r)),
        tree_view(r) == seq![
            el(None, UiStyle::SpeedIndicator, None, None, Some(GameUI::Default), UiMarker::SpeedIndicator, false),
        ],
{
    let mut t: Vec<UiElement> = Vec::new();
    push_el(&mut t, None, UiStyle::SpeedIndicator, None, None, Some(GameUI::Default), UiMarker::SpeedIndicator, false);
    let r = UiTree { elements: t };
    assert(tree_view(r) =~= seq![
        el(None, UiStyle::SpeedIndicator, None, None, Some(GameUI::Default), UiMarker::SpeedIndicator, false),
    ]);
    r
}

/// The root of the exit menu: a hidden window of the exit menu.
pub fn exit_menu_bundle() -> (r: UiElement)
    ensures
        element_view(r) == el(None, UiStyle::ExitMenu, None, None, Some(GameUI::ExitMenu), UiMarker::Plain, true),
{
    UiElement {
        parent: None,
        style: UiStyle::ExitMenu,
        text: None,
        action: None,
        window: Some(GameUI::ExitMenu),
        marker: UiMarker::Plain,
        hidden: true,
    }
}

/// The exit menu: a hidden window of the exit menu holding a column of
/// buttons, one per action of [`exit_menu_actions`], each with its image.
pub fn spawn_exit_menu() -> (r: UiTree)
    ensures
        tree_view(r) == exit_menu_view(),
        is_tree(tree_view(r)),
{
    let mut t: Vec<UiElement> = Vec::new();
    t.push(exit_menu_bundle());
    let column = push_el(&mut t, Some(0), UiStyle::ButtonColumn, None, None, None, UiMarker::Plain, false);
    assert(t@.map_values(|e: UiElement| element_view(e)) =~= exit_menu_view().take(2));
    let actions = exit_menu_actions();
    let mut i: usize = 0;
    while i < actions.len()
        invariant
            actions@.len() == 3,
            actions@[0] is BackToGame,
            actions@[1] is MainMenu,
            actions@[2] is SaveAndQuit,
            column == 1,
            i <= 3,
            t@.len() == 2 + 2 * i,
            t@.map_values(|e: UiElement| element_view(e)) == exit_menu_view().take(2 + 2 * i),
        decreases 3 - i,
    {
        let ghost before = t@;
        let b = spawn_button(&mut t, column, copy_action(&actions[i]));
        assert(t@.map_values(|e: UiElement| element_view(e)) =~= exit_menu_view().take(2 + 2 * (i + 1)));
        i = i + 1;
    }
    let r = UiTree { elements: t };
    assert(tree_view(r) =~= exit_menu_view());
    r
}

/// The elements of the exit menu.
pub open spec fn exit_menu_view() -> Seq<UiView> {
    seq![
        el(None, UiStyle::ExitMenu, None, None, Some(GameUI::ExitMenu), UiMarker::Plain, true),
        el(Some(0), UiStyle::ButtonColumn, None, None, None, UiMarker::Plain, false),
        el(Some(1), UiStyle::MenuButton, None, Some(ActionView::BackToGame), None, UiMarker::Plain, false),
        el(Some(2), UiStyle::ButtonImage, None, None, None, UiMarker::Plain, false),
        el(Some(1), UiStyle::MenuButton, None, Some(ActionView::MainMenu), None, UiMarker::Plain, false),
        el(Some(4), UiStyle::ButtonImage, None, None, None, UiMarker::Plain, false),
        el(Some(1), UiStyle::MenuButton, None, Some(ActionView::SaveAndQuit), None, UiMarker::Plain, false),
        el(Some(6), UiStyle::ButtonImage, None, None, None, UiMarker::Plain, false),
    ]
}


/// Element `k` of the hotbar: the bar, then for each slot its frame (shown
/// with the default window) followed by its image.
pub open spec fn hotbar_element(k: int) -> UiView {
    if k == 0 {
        el(None, UiStyle::HotbarBar, None, None, None, UiMarker::Plain, false)
    } else if (k - 1) % 2 == 0 {
        el(Some(0), UiStyle::HotbarSlot, None, None, Some(GameUI::Default), UiMarker::HotbarSlot(((k - 1) / 2) as usize), false)
    } else {
        el(Some((k - 1) as usize), UiStyle::HotbarImage, None, None, None, UiMarker::HotbarSlot(((k - 2) / 2) as usize), false)
    }
}

/// Adds under `parent` the frame of hotbar slot `index`, shown with the
/// default window, and the image inside it; returns the index of the frame.
pub fn spawn_hotbar_slot(t: &mut Vec<UiElement>, parent: usize, index: usize) -> (slot: usize)
    requires
        old(t)@.len() + 2 < usize::MAX,
    ensures
        slot == old(t)@.len(),
        final(t)@.len() == old(t)@.len() + 2,
        final(t)@.map_values(|e: UiElement| element_view(e)) == old(t)@.map_values(
            |e: UiElement| element_view(e),
        ) + seq![
            el(Some(parent), UiStyle::HotbarSlot, None, None, Some(GameUI::Default), UiMarker::HotbarSlot(index), false),
            el(Some(slot), UiStyle::HotbarImage, None, None, None, UiMarker::HotbarSlot(index), false),
        ],
{
    let ghost before = t@;
    let slot = push_el(t, Some(parent), UiStyle::HotbarSlot, None, None, Some(GameUI::Default), UiMarker::HotbarSlot(index), false);
    push_el(t, Some(slot), UiStyle::HotbarImage, None, None, None, UiMarker::HotbarSlot(index), false);
    assert(t@.map_values(|e: UiElement| element_view(e)) =~= before.map_values(|e: UiElement| element_view(e)) + seq![
        el(Some(parent), UiStyle::HotbarSlot, None, None, Some(GameUI::Default), UiMarker::HotbarSlot(index), false),
        el(Some(slot), UiStyle::HotbarImage, None, None, None, UiMarker::HotbarSlot(index), false),
    ]);
    slot
}

/// The bar that holds the hotbar slots.
pub fn spawn_hotbar_container() -> (r: UiTree)
    ensures
        tree_view(r) == seq![hotbar_element(0)],
{
    let mut t: Vec<UiElement> = Vec::new();
    push_el(&mut t, None, UiStyle::HotbarBar, None, None, None, UiMarker::Plain, false);
    let r = UiTree { elements: t };
    assert(tree_view(r) =~= seq![hotbar_element(0)]);
    r
}

/// The hotbar: its bar and, for each of the nine slots, a frame marked with
/// the slot's number and an image inside it.
pub fn spawn_hotbar() -> (r: UiTree)
    ensures
        tree_view(r) == hotbar_view(),
        is_tree(tree_view(r)),
{
    let r0 = spawn_hotbar_container();
    let mut t = r0.elements;
    assert(t@.map_values(|e: UiElement| element_view(e)).len() == t@.len());
    assert(t@.map_values(|e: UiElement| element_view(e)) =~= Seq::new(1, |k: int| hotbar_element(k)));
    let mut i: usize = 0;
    while i < HOTBAR_SIZE
        invariant
            i <= HOTBAR_SIZE,
            t@.len() == 1 + 2 * i,
            t@.map_values(|e: UiElement| element_view(e)) == Seq::new((1 + 2 * i) as nat, |k: int| hotbar_element(k)),
        decreases HOTBAR_SIZE - i,
    {
        let slot = spawn_hotbar_slot(&mut t, 0, i);
        assert(hotbar_element(1 + 2 * i) == el(Some(0), UiStyle::HotbarSlot, None, None, Some(GameUI::Default), UiMarker::HotbarSlot(i), false));
        assert(hotbar_element(2 + 2 * i) == el(Some(slot), UiStyle::HotbarImage, None, None, None, UiMarker::HotbarSlot(i), false));
        assert(t@.map_values(|e: UiElement| element_view(e)) =~= Seq::new((1 + 2 * (i + 1)) as nat, |k: int| hotbar_element(k)));
        i = i + 1;
    }
    let r = UiTree { elements: t };
    r
}

/// Element `k` of the inventory: the hidden grid, then for each slot its
/// button followed by its icon, both tied to the slot's action and window.
pub open spec fn inventory_element(k: int) -> UiView {
    if k == 0 {
        el(None, UiStyle::InventoryGrid, None, None, Some(GameUI::Inventory(0)), UiMarker::Plain, true)
    } else if (k - 1) % 2 == 0 {
        let i = ((k - 1) / 2) as usize;
        el(Some(0), UiStyle::InventorySlot, None, Some(ActionView::InventorySlot(i)), Some(GameUI::Inventory(i)), UiMarker::Plain, false)
    } else {
        let i = ((k - 2) / 2) as usize;
        el(Some((k - 1) as usize), UiStyle::InventoryIcon, None, Some(ActionView::InventorySlot(i)), Some(GameUI::Inventory(i)), UiMarker::Plain, false)
    }
}

/// The inventory: a hidden grid with a button and an icon for each of its
/// sixteen slots.
pub fn spawn_inventory() -> (r: UiTree)
    ensures
        tree_view(r) == inventory_view(),
        is_tree(tree_view(r)),
{
    let mut t: Vec<UiElement> = Vec::new();
    push_el(&mut t, None, UiStyle::InventoryGrid, None, None, Some(GameUI::Inventory(0)), UiMarker::Plain, true);
    assert(t@.map_values(|e: UiElement| element_view(e)) =~= Seq::new(1, |k: int| inventory_element(k)));
    let mut i: usize = 0;
    while i < INVENTORY_SIZE
        invariant
            i <= INVENTORY_SIZE,
            t@.len() == 1 + 2 * i,
            t@.map_values(|e: UiElement| element_view(e)) == Seq::new((1 + 2 * i) as nat, |k: int| inventory_element(k)),
        decreases INVENTORY_SIZE - i,
    {
        let ghost before = t@.map_values(|e: UiElement| element_view(e));
        let slot = push_el(
            &mut t,
            Some(0),
            UiStyle::InventorySlot,
            None,
            Some(MenuAction::InventorySlot(i)),
            Some(GameUI::Inventory(i)),
            UiMarker::Plain,
            false,
        );
        push_el(
            &mut t,
            Some(slot),
            UiStyle::InventoryIcon,
            None,
            Some(MenuAction::InventorySlot(i)),
            Some(GameUI::Inventory(i)),
            UiMarker::Plain,
            false,
        );
        assert(t@.map_values(|e: UiElement| element_view(e)) =~= before.push(
            el(Some(0), UiStyle::InventorySlot, None, Some(ActionView::InventorySlot(i)), Some(GameUI::Inventory(i)), UiMarker::Plain, false),
        ).push(el(Some(slot), UiStyle::InventoryIcon, None, Some(ActionView::InventorySlot(i)), Some(GameUI::Inventory(i)), UiMarker::Plain, false)));
        assert(inventory_element(1 + 2 * i) == el(Some(0), UiStyle::InventorySlot, None, Some(ActionView::InventorySlot(i)), Some(GameUI::Inventory(i)), UiMarker::Plain, false));
        assert(inventory_element(2 + 2 * i) == el(Some(slot), UiStyle::InventoryIcon, None, Some(ActionView::InventorySlot(i)), Some(GameUI::Inventory(i)), UiMarker::Plain, false));
        assert(t@.map_values(|e: UiElement| element_view(e)) =~= Seq::new((1 + 2 * (i + 1)) as nat, |k: int| inventory_element(k)));
        i = i + 1;
    }
    UiTree { elements: t }
}

/// A texture cut into equal pictures laid out in a grid: the size of one
/// picture in pixels, and the number of columns and of rows.
#[derive(Clone, Copy, Debug, PartialEq, Eq, Structural)]
pub struct AtlasGrid {
    pub tile_width: u32,
    pub tile_height: u32,
    pub columns: u32,
    pub rows: u32,
}

/// The voxel texture: one column of 16-pixel squares, one per texture row.
pub fn voxel_atlas() -> (r: AtlasGrid)
    ensures
        r == (AtlasGrid { tile_width: 16, tile_height: 16, columns: 1, rows: NUM_VOXELS as u32 }),
{
    AtlasGrid { tile_width: 16, tile_height: 16, columns: 1, rows: NUM_VOXELS as u32 }
}

/// The button texture: one column of sixteen 144 by 32 pixel pictures.
pub fn button_atlas() -> (r: AtlasGrid)
    ensures
        r == (AtlasGrid { tile_width: 144, tile_height: 32, columns: 1, rows: 16 }),
{
    AtlasGrid { tile_width: 144, tile_height: 32, columns: 1, rows: 16 }
}

/// The speeds offered by the clock widget, in ticks per second.
pub const CLOCK_SPEEDS: [usize; 4] = [4, 16, 64, 256];

/// Entry `j` of [`CLOCK_SPEEDS`].
pub open spec fn clock_speed(j: int) -> usize {
    if j == 0 {
        4
    } else if j == 1 {
        16
    } else if j == 2 {
        64
    } else {
        256
    }
}

/// Element `k` of the clock widget: the panel of the clock window, its
/// header, the pause button and its label, the list of speeds, then for each
/// speed its button and the label that writes the speed.
pub open spec fn clock_element(k: int) -> UiView {
    if k == 0 {
        el(None, UiStyle::ClockPanel, None, None, Some(GameUI::ClockWidget), UiMarker::Plain, false)
    } else if k == 1 {
        el(Some(0), UiStyle::ClockHeader, Some("Clock Speed"@), None, None, UiMarker::Plain, false)
    } else if k == 2 {
        el(Some(0), UiStyle::PauseButton, None, Some(ActionView::ClockSetting(0)), None, UiMarker::Plain, false)
    } else if k == 3 {
        el(Some(2), UiStyle::ButtonLabel, Some("Pause"@), None, None, UiMarker::Plain, false)
    } else if k == 4 {
        el(Some(0), UiStyle::SpeedList, None, None, None, UiMarker::Plain, false)
    } else if (k - 5) % 2 == 0 {
        let j = (k - 5) / 2;
        el(Some(4), UiStyle::SpeedButton(j as usize), None, Some(ActionView::ClockSetting(clock_speed(j))), None, UiMarker::Plain, false)
    } else {
        let j = (k - 6) / 2;
        el(Some((k - 1) as usize), UiStyle::ButtonLabel, Some(decimal(clock_speed(j) as nat)), None, None, UiMarker::Plain, false)
    }
}

/// The clock widget: a panel to pause the simulation or run it at one of the
/// [`CLOCK_SPEEDS`].
pub fn spawn_clock_widget() -> (r: UiTree)
    ensures
        tree_view(r) == Seq::new(13, |k: int| clock_element(k)),
        is_tree(tree_view(r)),
{
    let mut t: Vec<UiElement> = Vec::new();
    let root = push_el(&mut t, None, UiStyle::ClockPanel, None, None, Some(GameUI::ClockWidget), UiMarker::Plain, false);
    push_el(&mut t, Some(root), UiStyle::ClockHeader, Some(String::from_str("Clock Speed")), None, None, UiMarker::Plain, false);
    assert(t@.map_values(|e: UiElement| element_view(e)) =~= Seq::new(2, |k: int| clock_element(k)));
    spawn_text_button(&mut t, root, UiStyle::PauseButton, String::from_str("Pause"), MenuAction::ClockSetting(0));
    assert(t@.map_values(|e: UiElement| element_view(e)) =~= Seq::new(4, |k: int| clock_element(k)));
    let ghost before = t@.map_values(|e: UiElement| element_view(e));
    let list = push_el(&mut t, Some(root), UiStyle::SpeedList, None, None, None, UiMarker::Plain, false);
    assert(t@.map_values(|e: UiElement| element_view(e)) =~= before.push(el(Some(0), UiStyle::SpeedList, None, None, None, UiMarker::Plain, false)));
    assert(t@.map_values(|e: UiElement| element_view(e)) =~= Seq::new(5, |k: int| clock_element(k)));
    let speeds = CLOCK_SPEEDS;
    assert(speeds@ =~= seq![4usize, 16, 64, 256]);
    let mut j: usize = 0;
    while j < 4
        invariant
            j <= 4,
            list == 4,
            speeds@ == seq![4usize, 16, 64, 256],
            t@.len() == 5 + 2 * j,
            t@.map_values(|e: UiElement| element_view(e)) == Seq::new((5 + 2 * j) as nat, |k: int| clock_element(k)),
        decreases 4 - j,
    {
        let speed = speeds[j];
        assert(speed == clock_speed(j as int));
        let b = spawn_text_button(&mut t, list, UiStyle::SpeedButton(j), decimal_string(speed), MenuAction::ClockSetting(speed));
        assert(clock_element(5 + 2 * j) == el(Some(4), UiStyle::SpeedButton(j), None, Some(ActionView::ClockSetting(speed)), None, UiMarker::Plain, false));
        assert(clock_element(6 + 2 * j) == el(Some(b), UiStyle::ButtonLabel, Some(decimal(speed as nat)), None, None, UiMarker::Plain, false));
        assert(t@.map_values(|e: UiElement| element_view(e)) =~= Seq::new((5 + 2 * (j + 1)) as nat, |k: int| clock_element(k)));
        j = j + 1;
    }
    UiTree { elements: t }
}


/// Element `v` of a tree grafted at position `offset` of another, with its
/// root hung under `parent`.
pub open spec fn shift_view(v: UiView, offset: int, parent: usize) -> UiView {
    UiView {
        parent: match v.parent {
            Some(p) => Some((p + offset) as usize),
            None => Some(parent),
        },
        ..v
    }
}

/// The elements of `base` followed by those of `sub`, whose root is hung
/// under element `parent` of `base`.
pub open spec fn graft_view(base: Seq<UiView>, sub: Seq<UiView>, parent: usize) -> Seq<UiView> {
    base + sub.map_values(|v: UiView| shift_view(v, base.len() as int, parent))
}

/// Grafting a tree under an element of another tree gives a tree.
pub proof fn lemma_graft_is_tree(base: Seq<UiView>, sub: Seq<UiView>, parent: usize)
    requires
        is_tree(base),
        is_tree(sub),
        parent < base.len(),
    ensures
        is_tree(graft_view(base, sub, parent)),
        graft_view(base, sub, parent).len() == base.len() + sub.len(),
{
    let g = graft_view(base, sub, parent);
    assert forall|i: int| 0 < i < g.len() implies ((#[trigger] g[i]).parent matches Some(p) && p < i) by {
        if i >= base.len() {
            let k = i - base.len();
            assert(g[i] == shift_view(sub[k], base.len() as int, parent));
            if k > 0 {
                assert(sub[k].parent matches Some(p) && p < k);
            }
        }
    }
}

/// Hangs the tree `sub` under element `parent` of `base`.
pub fn graft(base: &mut UiTree, sub: UiTree, parent: usize)
    requires
        is_tree(tree_view(sub)),
        old(base).elements@.len() + sub.elements@.len() < usize::MAX,
    ensures
        tree_view(*final(base)) == graft_view(tree_view(*old(base)), tree_view(sub), parent),
{
    let offset = base.elements.len();
    let ghost b0 = tree_view(*base);
    let ghost s0 = tree_view(sub);
    let mut src = sub.elements;
    let n = src.len();
    let mut k: usize = 0;
    while k < n
        invariant
            k <= n,
            n == s0.len(),
            is_tree(s0),
            offset == b0.len(),
            offset + n < usize::MAX,
            src@.len() == n - k,
            src@.map_values(|e: UiElement| element_view(e)) == s0.skip(k as int),
            base.elements@.map_values(|e: UiElement| element_view(e)) == graft_view(b0, s0.take(k as int), parent),
        decreases n - k,
    {
        let ghost before = base.elements@.map_values(|e: UiElement| element_view(e));
        let ghost rest = src@;
        let mut e = src.remove(0);
        assert(element_view(e) == s0[k as int]) by {
            assert(rest.map_values(|e: UiElement| element_view(e))[0] == s0.skip(k as int)[0]);
        }
        let ghost old_view = element_view(e);
        e.parent = match e.parent {
            Some(p) => {
                assert(p < k || k == 0);
                Some(p + offset)
            },
            None => Some(parent),
        };
        assert(element_view(e) == shift_view(old_view, offset as int, parent));
        base.elements.push(e);
        proof {
            assert(src@ =~= rest.skip(1));
            let mv = src@.map_values(|e: UiElement| element_view(e));
            assert forall|j: int| 0 <= j < src@.len() implies #[trigger] mv[j] == s0.skip(k + 1)[j] by {
                assert(src@[j] == rest[j + 1]);
                assert(rest.map_values(|e: UiElement| element_view(e))[j + 1] == s0.skip(k as int)[j + 1]);
            }
            assert(src@.map_values(|e: UiElement| element_view(e)) =~= s0.skip(k + 1));
            assert(s0.take(k + 1) =~= s0.take(k as int).push(s0[k as int]));
            assert(base.elements@.map_values(|e: UiElement| element_view(e)) =~= before.push(shift_view(s0[k as int], offset as int, parent)));
            assert(graft_view(b0, s0.take(k + 1), parent) =~= graft_view(b0, s0.take(k as int), parent).push(
                shift_view(s0[k as int], offset as int, parent),
            ));
        }
        k = k + 1;
    }
    assert(s0.take(n as int) =~= s0);
}


/// The elements of the crosshair.
pub open spec fn cursor_view() -> Seq<UiView> {
    seq![el(None, UiStyle::Crosshair, Some("+"@), None, None, UiMarker::Cursor, false)]
}

/// The elements of the debug text.
pub open spec fn debug_text_view() -> Seq<UiView> {
    seq![el(None, UiStyle::DebugText, Some("Initializing debug info..."@), None, Some(GameUI::Debug), UiMarker::DebugText, false)]
}

/// The elements of the voxel identifier.
pub open spec fn identifier_view() -> Seq<UiView> {
    seq![el(None, UiStyle::Identifier, Some("Voxel Identifier"@), None, Some(GameUI::Default), UiMarker::VoxelIdentifier, false)]
}

/// The elements of the hotbar.
pub open spec fn hotbar_view() -> Seq<UiView> {
    Seq::new((1 + 2 * HOTBAR_SIZE) as nat, |k: int| hotbar_element(k))
}

/// The elements of the inventory.
pub open spec fn inventory_view() -> Seq<UiView> {
    Seq::new((1 + 2 * INVENTORY_SIZE) as nat, |k: int| inventory_element(k))
}

/// The interface of a game: a root holding the crosshair, the exit menu,
/// the hotbar, the inventory, the voxel identifier and the debug text.
pub open spec fn game_ui_view() -> Seq<UiView> {
    let root = seq![el(None, UiStyle::GameRoot, None, None, None, UiMarker::Plain, false)];
    graft_view(
        graft_view(
            graft_view(
                graft_view(graft_view(graft_view(root, cursor_view(), 0), exit_menu_view(), 0), hotbar_view(), 0),
                inventory_view(),
                0,
            ),
            identifier_view(),
            0,
        ),
        debug_text_view(),
        0,
    )
}

/// Builds the interface of a game.
pub fn setup_ui() -> (r: UiTree)
    ensures
        tree_view(r) == game_ui_view(),
        is_tree(tree_view(r)),
{
    let mut t: Vec<UiElement> = Vec::new();
    push_el(&mut t, None, UiStyle::GameRoot, None, None, None, UiMarker::Plain, false);
    let mut r = UiTree { elements: t };
    let ghost v0 = tree_view(r);
    assert(v0 =~= seq![el(None, UiStyle::GameRoot, None, None, None, UiMarker::Plain, false)]);
    let cursor = spawn_cursor_node();
    let exit = spawn_exit_menu();
    let hotbar = spawn_hotbar();
    let inventory = spawn_inventory();
    let identifier = spawn_identifier();
    let debug = spawn_debug_text();
    proof {
        assert(tree_view(cursor) == cursor_view());
        assert(is_tree(cursor_view()));
        assert(is_tree(identifier_view()));
        assert(is_tree(debug_text_view()));
        assert(is_tree(v0));
    }
    graft(&mut r, cursor, 0);
    proof { lemma_graft_is_tree(v0, cursor_view(), 0); }
    let ghost v1 = tree_view(r);
    graft(&mut r, exit, 0);
    proof { lemma_graft_is_tree(v1, exit_menu_view(), 0); }
    let ghost v2 = tree_view(r);
    graft(&mut r, hotbar, 0);
    proof { lemma_graft_is_tree(v2, hotbar_view(), 0); }
    let ghost v3 = tree_view(r);
    graft(&mut r, inventory, 0);
    proof { lemma_graft_is_tree(v3, inventory_view(), 0); }
    let ghost v4 = tree_view(r);
    graft(&mut r, identifier, 0);
    proof { lemma_graft_is_tree(v4, identifier_view(), 0); }
    let ghost v5 = tree_view(r);
    graft(&mut r, debug, 0);
    proof { lemma_graft_is_tree(v5, debug_text_view(), 0); }
    r
}

/// The root of the main menu: a black screen.
pub fn spawn_root_node() -> (r: UiTree)
    ensures
        tree_view(r) == seq![el(None, UiStyle::ScreenRoot, None, None, None, UiMarker::Plain, false)],
{
    let mut t: Vec<UiElement> = Vec::new();
    push_el(&mut t, None, UiStyle::ScreenRoot, None, None, None, UiMarker::Plain, false);
    let r = UiTree { elements: t };
    assert(tree_view(r) =~= seq![el(None, UiStyle::ScreenRoot, None, None, None, UiMarker::Plain, false)]);
    r
}

/// The elements of the hidden pop-up window of menu screen `screen`.
pub open spec fn popup_view(screen: GameUI) -> Seq<UiView> {
    seq![el(None, UiStyle::Popup, None, None, Some(screen), UiMarker::Plain, true)]
}

/// A hidden pop-up window for menu screen `screen`.
pub fn spawn_popup(screen: GameUI) -> (r: UiTree)
    ensures
        tree_view(r) == popup_view(screen),
{
    let mut t: Vec<UiElement> = Vec::new();
    push_el(&mut t, None, UiStyle::Popup, None, None, Some(screen), UiMarker::Plain, true);
    let r = UiTree { elements: t };
    assert(tree_view(r) =~= popup_view(screen));
    r
}

/// The elements of the main screen: the root, the main pop-up, a column of
/// buttons and the buttons for a new game, loading a game, the options and
/// quitting, each with its image.
pub open spec fn main_ui_view() -> Seq<UiView> {
    seq![
        el(None, UiStyle::ScreenRoot, None, None, None, UiMarker::Plain, false),
        el(Some(0), UiStyle::Popup, None, None, Some(GameUI::MainScreen), UiMarker::Plain, true),
        el(Some(1), UiStyle::MainButtons, None, None, None, UiMarker::Plain, false),
        el(Some(2), UiStyle::MenuButton, None, Some(ActionView::NewGame), None, UiMarker::Plain, false),
        el(Some(3), UiStyle::ButtonImage, None, None, None, UiMarker::Plain, false),
        el(Some(2), UiStyle::MenuButton, None, Some(ActionView::LoadGame), None, UiMarker::Plain, false),
        el(Some(5), UiStyle::ButtonImage, None, None, None, UiMarker::Plain, false),
        el(Some(2), UiStyle::MenuButton, None, Some(ActionView::Options), None, UiMarker::Plain, false),
        el(Some(7), UiStyle::ButtonImage, None, None, None, UiMarker::Plain, false),
        el(Some(2), UiStyle::MenuButton, None, Some(ActionView::QuitGame), None, UiMarker::Plain, false),
        el(Some(9), UiStyle::ButtonImage, None, None, None, UiMarker::Plain, false),
    ]
}

/// The main screen of the main menu.
pub fn spawn_main_ui() -> (r: UiTree)
    ensures
        tree_view(r) == main_ui_view(),
        is_tree(tree_view(r)),
{
    let mut t: Vec<UiElement> = Vec::new();
    push_el(&mut t, None, UiStyle::ScreenRoot, None, None, None, UiMarker::Plain, false);
    push_el(&mut t, Some(0), UiStyle::Popup, None, None, Some(GameUI::MainScreen), UiMarker::Plain, true);
    let sub = push_el(&mut t, Some(1), UiStyle::MainButtons, None, None, None, UiMarker::Plain, false);
    assert(t@.map_values(|e: UiElement| element_view(e)) =~= main_ui_view().take(3));
    spawn_button(&mut t, sub, MenuAction::NewGame);
    assert(t@.map_values(|e: UiElement| element_view(e)) =~= main_ui_view().take(5));
    spawn_button(&mut t, sub, MenuAction::LoadGame);
    assert(t@.map_values(|e: UiElement| element_view(e)) =~= main_ui_view().take(7));
    spawn_button(&mut t, sub, MenuAction::Options);
    assert(t@.map_values(|e: UiElement| element_view(e)) =~= main_ui_view().take(9));
    spawn_button(&mut t, sub, MenuAction::QuitGame);
    let r = UiTree { elements: t };
    assert(tree_view(r) =~= main_ui_view());
    r
}

/// The elements of the new game screen: its pop-up, a holder with the
/// button that creates the world, and the field where the world's name is typed.
pub open spec fn new_game_ui_view() -> Seq<UiView> {
    seq![
        el(None, UiStyle::Popup, None, None, Some(GameUI::NewGame), UiMarker::Plain, true),
        el(Some(0), UiStyle::NewGameButtons, None, None, None, UiMarker::Plain, false),
        el(Some(1), UiStyle::MenuButton, None, Some(ActionView::CreateWorld), None, UiMarker::Plain, false),
        el(Some(2), UiStyle::ButtonImage, None, None, None, UiMarker::Plain, false),
        el(Some(0), UiStyle::TextInput, None, None, None, UiMarker::TextInput, false),
    ]
}

/// The new game screen of the main menu.
pub fn spawn_new_game_ui() -> (r: UiTree)
    ensures
        tree_view(r) == new_game_ui_view(),
        is_tree(tree_view(r)),
{
    let mut t: Vec<UiElement> = Vec::new();
    push_el(&mut t, None, UiStyle::Popup, None, None, Some(GameUI::NewGame), UiMarker::Plain, true);
    let sub = push_el(&mut t, Some(0), UiStyle::NewGameButtons, None, None, None, UiMarker::Plain, false);
    assert(t@.map_values(|e: UiElement| element_view(e)) =~= new_game_ui_view().take(2));
    spawn_button(&mut t, sub, MenuAction::CreateWorld);
    let ghost before = t@.map_values(|e: UiElement| element_view(e));
    assert(before =~= new_game_ui_view().take(4));
    push_el(&mut t, Some(0), UiStyle::TextInput, None, None, None, UiMarker::TextInput, false);
    let r = UiTree { elements: t };
    assert(tree_view(r) =~= before.push(el(Some(0), UiStyle::TextInput, None, None, None, UiMarker::TextInput, false)));
    assert(tree_view(r) =~= new_game_ui_view());
    r
}

/// Element `k` of the load game screen for the saved worlds `names`: the
/// pop-up, the scrolling list, then for each world a row with a button that
/// loads it (labelled with its name) and one that deletes it (labelled ` X `).
pub open spec fn load_game_element(names: Seq<Seq<char>>, k: int) -> UiView {
    if k == 0 {
        el(None, UiStyle::Popup, None, None, Some(GameUI::LoadGame), UiMarker::Plain, true)
    } else if k == 1 {
        el(Some(0), UiStyle::SaveList, None, None, None, UiMarker::Plain, false)
    } else {
        let j = (k - 2) / 5;
        let row = (2 + 5 * j) as usize;
        let name = names[j];
        let r = (k - 2) % 5;
        if r == 0 {
            el(Some(1), UiStyle::SaveRow, None, None, None, UiMarker::Plain, false)
        } else if r == 1 {
            el(Some(row), UiStyle::LoadButton, None, Some(ActionView::LoadWorld(name)), None, UiMarker::Plain, false)
        } else if r == 2 {
            el(Some((row + 1) as usize), UiStyle::ButtonLabel, Some(name), None, None, UiMarker::Plain, false)
        } else if r == 3 {
            el(Some(row), UiStyle::DeleteButton, None, Some(ActionView::DeleteWorld(name)), None, UiMarker::Plain, false)
        } else {
            el(Some((row + 3) as usize), UiStyle::ButtonLabel, Some(" X "@), None, None, UiMarker::Plain, false)
        }
    }
}

/// The elements of the load game screen for the saved worlds `names`.
pub open spec fn load_game_ui_view(names: Seq<Seq<char>>) -> Seq<UiView> {
    Seq::new((2 + 5 * names.len()) as nat, |k: int| load_game_element(names, k))
}

/// The load game screen of the main menu, listing the saved worlds `names_list`.
pub fn spawn_load_game_ui(names_list: &Vec<String>) -> (r: UiTree)
    requires
        5 * names_list@.len() + 2 < usize::MAX,
    ensures
        tree_view(r) == load_game_ui_view(names_list@.map_values(|s: String| s@)),
        is_tree(tree_view(r)),
{
    let ghost names = names_list@.map_values(|s: String| s@);
    let mut t: Vec<UiElement> = Vec::new();
    push_el(&mut t, None, UiStyle::Popup, None, None, Some(GameUI::LoadGame), UiMarker::Plain, true);
    let list = push_el(&mut t, Some(0), UiStyle::SaveList, None, None, None, UiMarker::Plain, false);
    assert(t@.map_values(|e: UiElement| element_view(e)) =~= Seq::new(2, |k: int| load_game_element(names, k)));
    let mut j: usize = 0;
    while j < names_list.len()
        invariant
            j <= names_list@.len(),
            names == names_list@.map_values(|s: String| s@),
            5 * names_list@.len() + 2 < usize::MAX,
            list == 1,
            t@.len() == 2 + 5 * j,
            t@.map_values(|e: UiElement| element_view(e)) == Seq::new((2 + 5 * j) as nat, |k: int| load_game_element(names, k)),
        decreases names_list@.len() - j,
    {
        let ghost before = t@.map_values(|e: UiElement| element_view(e));
        let name = &names_list[j];
        let ghost nv = name@;
        assert(nv == names[j as int]);
        let row = push_el(&mut t, Some(list), UiStyle::SaveRow, None, None, None, UiMarker::Plain, false);
        let ghost with_row = t@.map_values(|e: UiElement| element_view(e));
        assert(with_row =~= before.push(el(Some(1), UiStyle::SaveRow, None, None, None, UiMarker::Plain, false)));
        let lb = spawn_text_button(&mut t, row, UiStyle::LoadButton, name.clone(), MenuAction::LoadWorld(name.clone()));
        let db = spawn_text_button(&mut t, row, UiStyle::DeleteButton, String::from_str(" X "), MenuAction::DeleteWorld(name.clone()));
        proof {
            let k0 = 2 + 5 * j;
            assert((k0 - 2) / 5 == j && (k0 - 2) % 5 == 0);
            assert((k0 + 1 - 2) / 5 == j && (k0 + 1 - 2) % 5 == 1);
            assert((k0 + 2 - 2) / 5 == j && (k0 + 2 - 2) % 5 == 2);
            assert((k0 + 3 - 2) / 5 == j && (k0 + 3 - 2) % 5 == 3);
            assert((k0 + 4 - 2) / 5 == j && (k0 + 4 - 2) % 5 == 4);
            assert(t@.map_values(|e: UiElement| element_view(e)) =~= Seq::new((2 + 5 * (j + 1)) as nat, |k: int| load_game_element(names, k)));
        }
        j = j + 1;
    }
    let r = UiTree { elements: t };
    proof {
        let v = tree_view(r);
        assert forall|i: int| 0 < i < v.len() implies ((#[trigger] v[i]).parent matches Some(p) && p < i) by {
            if i >= 2 {
                let jj = (i - 2) / 5;
                assert(0 <= jj < names.len());
            }
        }
    }
    r
}

/// The options screen of the main menu: its pop-up.
pub fn spawn_options_ui() -> (r: UiTree)
    ensures
        tree_view(r) == popup_view(GameUI::Options),
        is_tree(tree_view(r)),
{
    spawn_popup(GameUI::Options)
}

/// The main menu: the main screen, with the new game, load game and options
/// screens hung under its root.
pub fn setup_main_menu(saves: &Vec<String>) -> (r: UiTree)
    requires
        5 * saves@.len() + 2 < usize::MAX - 64,
    ensures
        tree_view(r) == graft_view(
            graft_view(graft_view(main_ui_view(), new_game_ui_view(), 0), load_game_ui_view(saves@.map_values(|s: String| s@)), 0),
            popup_view(GameUI::Options),
            0,
        ),
        is_tree(tree_view(r)),
{
    let mut r = spawn_main_ui();
    let ghost v0 = tree_view(r);
    let new_game = spawn_new_game_ui();
    let load_game = spawn_load_game_ui(saves);
    let options = spawn_options_ui();
    assert(r.elements@.len() == 11) by {
        assert(tree_view(r).len() == r.elements@.len());
    }
    assert(new_game.elements@.len() == 5) by {
        assert(tree_view(new_game).len() == new_game.elements@.len());
    }
    assert(load_game.elements@.len() == 2 + 5 * saves@.len()) by {
        assert(tree_view(load_game).len() == load_game.elements@.len());
    }
    graft(&mut r, new_game, 0);
    proof { lemma_graft_is_tree(v0, new_game_ui_view(), 0); }
    let ghost v1 = tree_view(r);
    assert(r.elements@.len() == 16) by {
        assert(tree_view(r).len() == r.elements@.len());
    }
    graft(&mut r, load_game, 0);
    proof { lemma_graft_is_tree(v1, load_game_ui_view(saves@.map_values(|s: String| s@)), 0); }
    let ghost v2 = tree_view(r);
    assert(r.elements@.len() == 18 + 5 * saves@.len()) by {
        assert(tree_view(r).len() == r.elements@.len());
    }
    assert(options.elements@.len() == 1) by {
        assert(tree_view(options).len() == options.elements@.len());
    }
    graft(&mut r, options, 0);
    proof { lemma_graft_is_tree(v2, popup_view(GameUI::Options), 0); }
    r
}

} // verus!

use vstd::prelude::*;

use crate::voxel::{IVec3, Voxel, VoxelType, HOTBAR_SIZE, kind_of_pair};
use crate::world::VoxelDefinition;

verus! {

/// The global state of the game.
#[derive(Clone, Copy, Debug, PartialEq, Eq, Structural)]
pub enum GameState {
    Loading,
    MainMenu,
    InGame,
}

/// Which interface window is shown.
#[derive(Clone, Copy, Debug, PartialEq, Eq, Structural)]
pub enum GameUI {
    MainScreen,
    NewGame,
    LoadGame,
    Options,
    Default,
    Inventory(usize),
    Hidden,
    ExitMenu,
    Debug,
    ClockWidget,
}

/// What a menu button does.
#[derive(Clone, Debug)]
pub enum MenuAction {
    NewGame,
    LoadGame,
    LoadWorld(String),
    DeleteWorld(String),
    Options,
    QuitGame,
    CreateWorld,
    BackToGame,
    MainMenu,
    SaveAndQuit,
    InventorySlot(usize),
    ClockSetting(usize),
}

/// How the window holds the mouse cursor.
#[derive(Clone, Copy, Debug, PartialEq, Eq, Structural)]
pub enum CursorGrabMode {
    Free,
    Confined,
    Locked,
}

/// Sounds of the interface.
#[derive(Clone, Copy, Debug, PartialEq, Eq, Structural)]
pub enum HudSfx {
    Hover,
    Click,
}

/// Sounds of the world.
#[derive(Clone, Copy, Debug, PartialEq, Eq, Structural)]
pub enum WorldSfx {
    Place,
    Destroy,
}

/// A sound to play.
#[derive(Clone, Copy, Debug, PartialEq, Eq, Structural)]
pub enum AudioEvent {
    Ui(HudSfx),
    /// A world sound and the position it comes from.
    World(WorldSfx, IVec3),
}

/// A request the game loop carries out.
#[derive(Clone, Debug)]
pub enum GameEvent {
    /// Stops the handling of the requests that follow in this frame.
    Skip,
    PlaceBlock { voxel: Voxel },
    RemoveBlock { position: IVec3 },
    UpdateMesh { updates: [IVec3; 6] },
    UpdateCursorMode { mode: CursorGrabMode, show_cursor: bool, enable_input: bool },
    SaveWorld { world_name: String },
    StateChange { new_state: GameState },
    ToggleUI { new_ui: GameUI },
    LoadWorld { world_name: String },
    DeleteWorld { world_name: String },
    /// Replace the player.
    ModifyPlayer { player_modified: Player },
    SpeedChange { change: i32 },
}

/// The player as the game logic sees it: what the view ray hits, what would
/// be placed, and the hotbar.
#[derive(Clone, Debug)]
pub struct Player {
    pub hit_voxel: Option<Voxel>,
    pub selected_voxel: Option<Voxel>,
    pub selected_descriptor: Option<VoxelDefinition>,
    pub hotbar_selector: usize,
    pub hotbar: Vec<VoxelType>,
}

/// The player as a value: its fields, with the selected kind's definition
/// taken as its kind and name.
pub struct PlayerModel {
    pub hit_voxel: Option<Voxel>,
    pub selected_voxel: Option<Voxel>,
    pub selected_descriptor: Option<(VoxelType, Seq<char>)>,
    pub hotbar_selector: usize,
    pub hotbar: Seq<VoxelType>,
}

/// A definition taken as its kind and name.
pub open spec fn descriptor_model(d: Option<VoxelDefinition>) -> Option<(VoxelType, Seq<char>)> {
    match d {
        Some(d) => Some((d.voxel_id, d.name@)),
        None => None,
    }
}

impl View for Player {
    type V = PlayerModel;

    open spec fn view(&self) -> PlayerModel {
        PlayerModel {
            hit_voxel: self.hit_voxel,
            selected_voxel: self.selected_voxel,
            selected_descriptor: descriptor_model(self.selected_descriptor),
            hotbar_selector: self.hotbar_selector,
            hotbar: self.hotbar@,
        }
    }
}

/// A copy of a definition.
pub fn copy_descriptor(d: &Option<VoxelDefinition>) -> (r: Option<VoxelDefinition>)
    ensures
        descriptor_model(r) == descriptor_model(*d),
{
    match d {
        Some(x) => Some(VoxelDefinition { voxel_id: x.voxel_id, name: x.name.clone() }),
        None => None,
    }
}

impl Player {
    /// A copy of the player.
    pub fn duplicate(&self) -> (r: Player)
        ensures
            r@ == self@,
    {
        let hotbar = self.hotbar.clone();
        assert(hotbar@ =~= self.hotbar@);
        Player {
            hit_voxel: self.hit_voxel,
            selected_voxel: self.selected_voxel,
            selected_descriptor: copy_descriptor(&self.selected_descriptor),
            hotbar_selector: self.hotbar_selector,
            hotbar,
        }
    }

    /// A player with nothing targeted, the first slot selected and the first
    /// kind of each group in the hotbar slot of that group.
    pub fn default() -> (r: Player)
        ensures
            r.hit_voxel is None,
            r.selected_voxel is None,
            r.selected_descriptor is None,
            r.hotbar_selector == 0,
            r.hotbar@.len() == HOTBAR_SIZE,
            forall|i: int| 0 <= i < HOTBAR_SIZE ==> kind_of_pair(i as usize, 0) == Some(#[trigger] r.hotbar@[i]),
    {
        let mut initial_bar: Vec<VoxelType> = Vec::new();
        let mut i: usize = 0;
        while i < HOTBAR_SIZE
            invariant
                i <= HOTBAR_SIZE,
                initial_bar@.len() == i,
                forall|k: int| 0 <= k < i ==> kind_of_pair(k as usize, 0) == Some(#[trigger] initial_bar@[k]),
            decreases HOTBAR_SIZE - i,
        {
            match VoxelType::try_from((i, 0)) {
                Ok(voxel_type) => {
                    initial_bar.push(voxel_type);
                },
                Err(_) => {
                    proof {
                        assert(kind_of_pair(i, 0) is Some);
                    }
                },
            }
            i = i + 1;
        }
        Player {
            hit_voxel: None,
            selected_voxel: None,
            selected_descriptor: None,
            hotbar_selector: 0,
            hotbar: initial_bar,
        }
    }
}

/// The simulation speed setting: an index into [`SPEED_SETTINGS`], where the
/// first setting pauses the simulation.
pub struct SimulationTimer {
    rate: u64,
}

/// Simulation ticks per second for each speed setting; 0 pauses.
pub const SPEED_SETTINGS: [u64; 5] = [0, 4, 16, 64, 256];

/// The ticks per second of setting `r`.
pub open spec fn speed_of(r: int) -> u64 {
    if r == 0 {
        0
    } else if r == 1 {
        4
    } else if r == 2 {
        16
    } else if r == 3 {
        64
    } else {
        256
    }
}

/// `v` limited to the range from `lo` to `hi`.
pub open spec fn clamp_int(v: int, lo: int, hi: int) -> int {
    if v < lo {
        lo
    } else if v > hi {
        hi
    } else {
        v
    }
}

impl SimulationTimer {
    #[verifier::type_invariant]
    spec fn setting_exists(self) -> bool {
        self.rate < 5
    }

    /// The current setting.
    pub closed spec fn rate_spec(self) -> u64 {
        self.rate
    }

    /// The setting the game starts with: four ticks per second.
    pub fn new() -> (r: SimulationTimer)
        ensures
            r.rate_spec() == 1,
    {
        SimulationTimer { rate: 1 }
    }

    /// The current setting.
    pub fn rate(&self) -> (r: u64)
        ensures
            r == self.rate_spec(),
            r < 5,
    {
        proof {
            use_type_invariant(self);
        }
        self.rate
    }

    /// The ticks per second of the current setting (0 when paused).
    pub fn ticks_per_second(&self) -> (r: u64)
        ensures
            r == speed_of(self.rate_spec() as int),
    {
        proof {
            use_type_invariant(self);
        }
        let settings = SPEED_SETTINGS;
        assert(settings@ =~= seq![0u64, 4, 16, 64, 256]);
        settings[self.rate as usize]
    }

    /// Moves the setting by `change` steps, staying within the settings.
    /// Returns the new setting.
    pub fn change_speed(&mut self, change: i32) -> (r: u64)
        ensures
            r == final(self).rate_spec(),
            r as int == clamp_int(old(self).rate_spec() + change, 0, 4),
    {
        proof {
            use_type_invariant(&*self);
        }
        let current = self.rate as i64;
        let moved = current + change as i64;
        let new_rate: u64 = if moved < 0 {
            0
        } else if moved > 4 {
            4
        } else {
            moved as u64
        };
        self.rate = new_rate;
        new_rate
    }
}

/// The hotbar slot selected after one scroll step: a step up moves to the
/// previous slot, a step down to the next, wrapping around the nine slots.
/// The slot number is read as a signed machine integer first.
pub fn scroll_hotbar(hotbar_selector: usize, step: i8) -> (r: usize)
    ensures
        r < HOTBAR_SIZE,
        r as int == ((hotbar_selector as isize) - step) % 9,
{
    let signed = hotbar_selector as isize;
    let s = signed as i128 - step as i128;
    let m = s % 9;
    let r = if m < 0 { m + 9 } else { m };
    proof {
        assert(r == ((hotbar_selector as isize) - step) % 9);
    }
    r as usize
}

} // verus!

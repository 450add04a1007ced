use vstd::prelude::*;

use crate::bits::Bits16;
use crate::game::{
    AudioEvent, CursorGrabMode, GameEvent, GameUI, Player, PlayerModel, WorldSfx, copy_descriptor,
    descriptor_model,
};
use crate::logic::LogicEvent;
use crate::voxel::{
    ComponentVariants, IVec3, Voxel, VoxelType, group_of, subset_size, subset_size_of,
};
use crate::world::{VoxelDefinition, get_neighboring_coords, neighbor};

verus! {

/// Something the player's input asks for: a game request, a sound, or a
/// change of the logic world.
#[derive(Clone, Debug)]
pub enum InputEvent {
    Game(GameEvent),
    Audio(AudioEvent),
    Logic(LogicEvent),
}

/// The model of an emitted request, for contracts.
pub enum Req {
    PlaceBlock(Voxel),
    RemoveBlock(IVec3),
    UpdateMesh(Seq<IVec3>),
    Cursor(CursorGrabMode, bool, bool),
    ToggleUI(GameUI),
    ModifyPlayer(PlayerModel),
    SpeedChange(i32),
    Audio(AudioEvent),
    Logic(LogicEvent),
    Other,
}

/// The six neighbour cells of `p`.
pub open spec fn neighbors_of(p: IVec3) -> Seq<IVec3> {
    Seq::new(6, |d: int| neighbor(p, d))
}

/// What an emitted event requests.
pub open spec fn req_of(e: InputEvent) -> Req {
    match e {
        InputEvent::Game(g) => match g {
            GameEvent::PlaceBlock { voxel } => Req::PlaceBlock(voxel),
            GameEvent::RemoveBlock { position } => Req::RemoveBlock(position),
            GameEvent::UpdateMesh { updates } => Req::UpdateMesh(updates@),
            GameEvent::UpdateCursorMode { mode, show_cursor, enable_input } => Req::Cursor(mode, show_cursor, enable_input),
            GameEvent::ToggleUI { new_ui } => Req::ToggleUI(new_ui),
            GameEvent::ModifyPlayer { player_modified } => Req::ModifyPlayer(player_modified@),
            GameEvent::SpeedChange { change } => Req::SpeedChange(change),
            _ => Req::Other,
        },
        InputEvent::Audio(a) => Req::Audio(a),
        InputEvent::Logic(l) => Req::Logic(l),
    }
}

/// The input state of one frame, with the facts about the player that the
/// input decisions read, and the requests emitted so far.
pub struct PlayerInputContext {
    pub current_ui: GameUI,
    pub has_window: bool,
    pub escape_pressed: bool,
    pub tab_pressed: bool,
    pub tab_released: bool,
    pub f3_pressed: bool,
    pub comma_pressed: bool,
    pub period_pressed: bool,
    pub interact_pressed: bool,
    pub interact_released: bool,
    pub middle_pressed: bool,
    /// The place button fired this frame (pressed now, or held past the delay).
    pub place_triggered: bool,
    /// The remove button fired this frame.
    pub remove_triggered: bool,
    /// The cardinal direction (1 to 4) the camera faces.
    pub facing: usize,
    pub hit_voxel: Option<Voxel>,
    pub selected_voxel: Option<Voxel>,
    /// The definition of the selected hotbar kind.
    pub selected_descriptor: Option<VoxelDefinition>,
    pub hotbar_selector: usize,
    pub hotbar: Vec<VoxelType>,
    pub events: Vec<InputEvent>,
}

/// The requests of a placement: the place sound, the block turned to the
/// facing direction, and a mesh update around it.
#[verifier::opaque]
pub open spec fn placement_reqs(c: PlayerInputContext) -> Seq<Req> {
    if c.place_triggered && c.selected_voxel is Some {
        let v = c.selected_voxel->0;
        let placed = Voxel { kind: v.kind, position: v.position, direction: c.facing, state: v.state };
        seq![
            Req::Audio(AudioEvent::World(WorldSfx::Place, v.position)),
            Req::PlaceBlock(placed),
            Req::UpdateMesh(neighbors_of(v.position)),
        ]
    } else {
        Seq::empty()
    }
}

/// The requests of a removal: the destroy sound, the removal of the block
/// hit, and a mesh update around it.
#[verifier::opaque]
pub open spec fn removal_reqs(c: PlayerInputContext) -> Seq<Req> {
    if c.remove_triggered && c.hit_voxel is Some {
        let p = c.hit_voxel->0.position;
        seq![Req::Audio(AudioEvent::World(WorldSfx::Destroy, p)), Req::RemoveBlock(p), Req::UpdateMesh(neighbors_of(p))]
    } else {
        Seq::empty()
    }
}

/// The request of a hotbar copy: the kind hit goes into the hotbar slot of
/// its group, which becomes selected.
#[verifier::opaque]
pub open spec fn copy_reqs(c: PlayerInputContext) -> Seq<Req> {
    if c.middle_pressed && c.hit_voxel is Some && group_of(c.hit_voxel->0.kind) < c.hotbar@.len() {
        let k = c.hit_voxel->0.kind;
        let g = group_of(k);
        seq![
            Req::ModifyPlayer(
                PlayerModel {
                    hit_voxel: c.hit_voxel,
                    selected_voxel: c.selected_voxel,
                    selected_descriptor: descriptor_model(c.selected_descriptor),
                    hotbar_selector: g,
                    hotbar: c.hotbar@.update(g as int, k),
                },
            ),
        ]
    } else {
        Seq::empty()
    }
}

/// A window change: the cursor mode, then the window.
pub open spec fn set_ui_reqs(ui: GameUI, mode: CursorGrabMode, show_cursor: bool, enable_input: bool) -> Seq<Req> {
    seq![Req::Cursor(mode, show_cursor, enable_input), Req::ToggleUI(ui)]
}

/// The requests of the interact key on the voxel hit: releasing it returns to
/// the default window; a switch toggles between all channels on and off, a
/// button is on while held; a clock opens its widget while held.
#[verifier::opaque]
pub open spec fn interaction_reqs(c: PlayerInputContext) -> Seq<Req> {
    let release = if c.interact_released {
        set_ui_reqs(GameUI::Default, CursorGrabMode::Locked, false, true)
    } else {
        Seq::empty()
    };
    if !c.interact_pressed && !c.interact_released {
        release
    } else if c.hit_voxel is None {
        release
    } else {
        let v = c.hit_voxel->0;
        let p = c.interact_pressed;
        let logic = if v.kind == VoxelType::Component(ComponentVariants::Switch) && p {
            seq![Req::Logic(LogicEvent::UpdateVoxel {
                position: v.position,
                new_state: Bits16 { word: if v.state.word == 0 { 0xffffu16 } else { 0u16 } },
            })]
        } else if v.kind == VoxelType::Component(ComponentVariants::Button) {
            seq![Req::Logic(LogicEvent::UpdateVoxel {
                position: v.position,
                new_state: Bits16 { word: if p { 0xffffu16 } else { 0u16 } },
            })]
        } else {
            Seq::empty()
        };
        let clock = if v.kind == VoxelType::Component(ComponentVariants::Clock) {
            if p {
                set_ui_reqs(GameUI::ClockWidget, CursorGrabMode::Locked, true, false)
            } else {
                set_ui_reqs(GameUI::Default, CursorGrabMode::Locked, false, true)
            }
        } else {
            Seq::empty()
        };
        release + logic + clock
    }
}

/// The requests of the world interactions: placing, removing and copying in
/// the default window, and the interact key in the default window or the
/// clock widget.
pub open spec fn world_reqs(c: PlayerInputContext) -> Seq<Req> {
    if c.current_ui == GameUI::Default {
        placement_reqs(c) + removal_reqs(c) + copy_reqs(c) + interaction_reqs(c)
    } else if c.current_ui == GameUI::ClockWidget {
        interaction_reqs(c)
    } else {
        Seq::empty()
    }
}

/// The requests of the interface keys: escape opens or closes the exit menu;
/// tab opens the inventory of the selected group while held; F3 toggles the
/// debug window; comma and period change the simulation speed.
#[verifier::opaque]
pub open spec fn shortcut_reqs(c: PlayerInputContext) -> Seq<Req> {
    if c.escape_pressed {
        if c.current_ui != GameUI::ExitMenu {
            set_ui_reqs(GameUI::ExitMenu, CursorGrabMode::Free, true, false)
        } else {
            set_ui_reqs(GameUI::Default, CursorGrabMode::Locked, false, true)
        }
    } else if c.tab_pressed {
        if c.current_ui != GameUI::ExitMenu {
            set_ui_reqs(
                GameUI::Inventory(subset_size(c.hotbar_selector as int) as usize),
                CursorGrabMode::Locked,
                true,
                false,
            )
        } else {
            Seq::empty()
        }
    } else {
        let release = if c.tab_released && c.current_ui != GameUI::ExitMenu {
            set_ui_reqs(GameUI::Default, CursorGrabMode::Locked, false, true)
        } else {
            Seq::empty()
        };
        let debug = if c.f3_pressed {
            seq![Req::ToggleUI(if c.current_ui == GameUI::Debug { GameUI::Default } else { GameUI::Debug })]
        } else {
            Seq::empty()
        };
        let speed = if c.comma_pressed {
            seq![Req::SpeedChange(-1i32)]
        } else if c.period_pressed {
            seq![Req::SpeedChange(1)]
        } else {
            Seq::empty()
        };
        release + debug + speed
    }
}

/// The requests of a whole frame: the world interactions, then, when a
/// window exists, the interface keys.
pub open spec fn frame_reqs(c: PlayerInputContext) -> Seq<Req> {
    if c.has_window {
        world_reqs(c) + shortcut_reqs(c)
    } else {
        world_reqs(c)
    }
}

/// The requests a list of events makes.
pub open spec fn reqs_of(evs: Seq<InputEvent>) -> Seq<Req> {
    evs.map_values(|e: InputEvent| req_of(e))
}

/// The index of the selected group is valid wherever the inventory is opened.
pub open spec fn inventory_selector_ok(c: PlayerInputContext) -> bool {
    c.has_window && !c.escape_pressed && c.tab_pressed && c.current_ui != GameUI::ExitMenu
        ==> c.hotbar_selector < 9
}

/// The requests depend only on the inputs, not on what was emitted before.
proof fn lemma_reqs_depend_on_inputs(a: PlayerInputContext, b: PlayerInputContext)
    requires
        a.same_inputs(b),
    ensures
        placement_reqs(a) == placement_reqs(b),
        removal_reqs(a) == removal_reqs(b),
        copy_reqs(a) == copy_reqs(b),
        interaction_reqs(a) == interaction_reqs(b),
        shortcut_reqs(a) == shortcut_reqs(b),
        world_reqs(a) == world_reqs(b),
{
    reveal(placement_reqs);
    reveal(removal_reqs);
    reveal(copy_reqs);
    reveal(interaction_reqs);
    reveal(shortcut_reqs);
}

impl PlayerInputContext {
    /// The unchanged inputs of a context.
    pub open spec fn same_inputs(self, o: PlayerInputContext) -> bool {
        &&& self.current_ui == o.current_ui
        &&& self.has_window == o.has_window
        &&& self.escape_pressed == o.escape_pressed
        &&& self.tab_pressed == o.tab_pressed
        &&& self.tab_released == o.tab_released
        &&& self.f3_pressed == o.f3_pressed
        &&& self.comma_pressed == o.comma_pressed
        &&& self.period_pressed == o.period_pressed
        &&& self.interact_pressed == o.interact_pressed
        &&& self.interact_released == o.interact_released
        &&& self.middle_pressed == o.middle_pressed
        &&& self.place_triggered == o.place_triggered
        &&& self.remove_triggered == o.remove_triggered
        &&& self.facing == o.facing
        &&& self.hit_voxel == o.hit_voxel
        &&& self.selected_voxel == o.selected_voxel
        &&& self.selected_descriptor == o.selected_descriptor
        &&& self.hotbar_selector == o.hotbar_selector
        &&& self.hotbar@ == o.hotbar@
    }

    /// A context for one frame with no request emitted yet.
    pub fn new(
        current_ui: GameUI,
        has_window: bool,
        keys: [bool; 9],
        place_triggered: bool,
        remove_triggered: bool,
        facing: usize,
        hit_voxel: Option<Voxel>,
        selected_voxel: Option<Voxel>,
        selected_descriptor: Option<VoxelDefinition>,
        hotbar_selector: usize,
        hotbar: Vec<VoxelType>,
    ) -> (r: Self)
        ensures
            r.current_ui == current_ui,
            r.has_window == has_window,
            r.escape_pressed == keys@[0],
            r.tab_pressed == keys@[1],
            r.tab_released == keys@[2],
            r.f3_pressed == keys@[3],
            r.comma_pressed == keys@[4],
            r.period_pressed == keys@[5],
            r.interact_pressed == keys@[6],
            r.interact_released == keys@[7],
            r.middle_pressed == keys@[8],
            r.place_triggered == place_triggered,
            r.remove_triggered == remove_triggered,
            r.facing == facing,
            r.hit_voxel == hit_voxel,
            r.selected_voxel == selected_voxel,
            r.selected_descriptor == selected_descriptor,
            r.hotbar_selector == hotbar_selector,
            r.hotbar@ == hotbar@,
            r.events@.len() == 0,
    {
        PlayerInputContext {
            current_ui,
            has_window,
            escape_pressed: keys[0],
            tab_pressed: keys[1],
            tab_released: keys[2],
            f3_pressed: keys[3],
            comma_pressed: keys[4],
            period_pressed: keys[5],
            interact_pressed: keys[6],
            interact_released: keys[7],
            middle_pressed: keys[8],
            place_triggered,
            remove_triggered,
            facing,
            hit_voxel,
            selected_voxel,
            selected_descriptor,
            hotbar_selector,
            hotbar,
            events: Vec::new(),
        }
    }

    /// Whether the frame's decisions can run: the selected group must exist
    /// where the inventory would be opened.
    pub fn can_process(&self) -> (r: bool)
        ensures
            r == inventory_selector_ok(*self),
    {
        !(self.has_window && !self.escape_pressed && self.tab_pressed && self.current_ui != GameUI::ExitMenu)
            || self.hotbar_selector < 9
    }

    /// Runs the decisions of one frame.
    pub fn process(&mut self)
        requires
            inventory_selector_ok(*old(self)),
        ensures
            final(self).same_inputs(*old(self)),
            reqs_of(final(self).events@) == reqs_of(old(self).events@)
                + frame_reqs(*old(self)),
    {
        let ghost r0 = reqs_of(self.events@);
        let ghost c = *old(self);
        self.handle_world_interactions();
        let ghost s1 = *self;
        let ghost r1 = reqs_of(self.events@);
        if !self.has_window {
            return;
        }
        self.handle_ui_shortcuts();
        proof {
            lemma_reqs_depend_on_inputs(s1, c);
            assert(reqs_of(self.events@) =~= r1 + shortcut_reqs(c));
            assert(reqs_of(self.events@) =~= r0 + frame_reqs(c));
        }
    }

    fn emit(&mut self, e: InputEvent)
        ensures
            final(self).same_inputs(*old(self)),
            final(self).events@ == old(self).events@.push(e),
            reqs_of(final(self).events@) == reqs_of(old(self).events@).push(req_of(e)),
    {
        let ghost e0 = self.events@;
        self.events.push(e);
        proof {
            assert(reqs_of(self.events@) =~= reqs_of(e0).push(req_of(e)));
        }
    }

    /// The interface keys.
    pub fn handle_ui_shortcuts(&mut self)
        requires
            !old(self).escape_pressed && old(self).tab_pressed && old(self).current_ui != GameUI::ExitMenu
                ==> old(self).hotbar_selector < 9,
        ensures
            final(self).same_inputs(*old(self)),
            reqs_of(final(self).events@) == reqs_of(old(self).events@) + shortcut_reqs(*old(self)),
    {
        let ghost c = *old(self);
        let ghost r0 = reqs_of(self.events@);
        proof {
            reveal(shortcut_reqs);
        }
        if self.escape_pressed {
            if self.current_ui != GameUI::ExitMenu {
                self.set_ui(GameUI::ExitMenu, CursorGrabMode::Free, true, false);
            } else {
                self.set_ui(GameUI::Default, CursorGrabMode::Locked, false, true);
            }
            assert(reqs_of(self.events@) =~= r0 + shortcut_reqs(c));
            return;
        }
        if self.tab_pressed {
            if self.current_ui != GameUI::ExitMenu {
                let size = subset_size_of(self.hotbar_selector);
                self.set_ui(GameUI::Inventory(size), CursorGrabMode::Locked, true, false);
            }
            assert(reqs_of(self.events@) =~= r0 + shortcut_reqs(c));
            return;
        }
        if self.tab_released {
            if self.current_ui != GameUI::ExitMenu {
                self.set_ui(GameUI::Default, CursorGrabMode::Locked, false, true);
            }
        }
        let ghost r1 = reqs_of(self.events@);
        if self.f3_pressed {
            let new_ui = if self.current_ui == GameUI::Debug {
                GameUI::Default
            } else {
                GameUI::Debug
            };
            self.switch_ui(new_ui);
        }
        let ghost r2 = reqs_of(self.events@);
        if self.comma_pressed {
            self.emit(InputEvent::Game(GameEvent::SpeedChange { change: -1 }));
        } else if self.period_pressed {
            self.emit(InputEvent::Game(GameEvent::SpeedChange { change: 1 }));
        }
        assert(reqs_of(self.events@) =~= r0 + shortcut_reqs(c));
    }

    /// The world interactions, in the default window or the clock widget.
    pub fn handle_world_interactions(&mut self)
        ensures
            final(self).same_inputs(*old(self)),
            reqs_of(final(self).events@) == reqs_of(old(self).events@)
                + world_reqs(*old(self)),
    {
        let ghost r0 = reqs_of(self.events@);
        let ghost c = *old(self);
        if self.current_ui != GameUI::Default && self.current_ui != GameUI::ClockWidget {
            assert(reqs_of(self.events@) =~= r0 + world_reqs(c));
            return;
        }
        if self.current_ui == GameUI::Default {
            self.handle_block_placement();
            let ghost s1 = *self;
            let ghost r1 = reqs_of(self.events@);
            self.handle_block_removal();
            let ghost s2 = *self;
            let ghost r2 = reqs_of(self.events@);
            self.handle_hotbar_copy();
            let ghost s3 = *self;
            let ghost r3 = reqs_of(self.events@);
            self.handle_block_interaction();
            proof {
                lemma_reqs_depend_on_inputs(s1, c);
                lemma_reqs_depend_on_inputs(s2, c);
                lemma_reqs_depend_on_inputs(s3, c);
                assert(r1 =~= r0 + placement_reqs(c));
                assert(r2 =~= r1 + removal_reqs(c));
                assert(r3 =~= r2 + copy_reqs(c));
                assert(reqs_of(self.events@) =~= r3 + interaction_reqs(c));
                assert(reqs_of(self.events@) =~= r0 + world_reqs(c));
            }
        } else {
            self.handle_block_interaction();
            proof {
                assert(reqs_of(self.events@) =~= r0 + world_reqs(c));
            }
        }
    }

    /// Places the selected voxel when the place button fired.
    pub fn handle_block_placement(&mut self)
        ensures
            final(self).same_inputs(*old(self)),
            reqs_of(final(self).events@) == reqs_of(old(self).events@)
                + placement_reqs(*old(self)),
    {
        if !self.place_triggered {
            proof {
                reveal(placement_reqs);
                assert(reqs_of(self.events@) =~= reqs_of(self.events@) + placement_reqs(*old(self)));
            }
            return;
        }
        let ghost r0 = reqs_of(self.events@);
        if let Some(selected) = self.selected_voxel {
            self.emit(InputEvent::Audio(AudioEvent::World(WorldSfx::Place, selected.position)));
            let mut voxel = selected;
            voxel.direction = self.facing;
            self.emit(InputEvent::Game(GameEvent::PlaceBlock { voxel }));
            let mesh_updates = get_neighboring_coords(voxel.position);
            self.emit(InputEvent::Game(GameEvent::UpdateMesh { updates: mesh_updates }));
            proof {
                reveal(placement_reqs);
                assert(mesh_updates@ =~= neighbors_of(voxel.position));
                assert(reqs_of(self.events@) =~= r0 + placement_reqs(*old(self)));
            }
        } else {
            proof {
                reveal(placement_reqs);
                assert(reqs_of(self.events@) =~= r0 + placement_reqs(*old(self)));
            }
        }
    }

    /// Removes the voxel hit when the remove button fired.
    pub fn handle_block_removal(&mut self)
        ensures
            final(self).same_inputs(*old(self)),
            reqs_of(final(self).events@) == reqs_of(old(self).events@)
                + removal_reqs(*old(self)),
    {
        let ghost r0 = reqs_of(self.events@);
        if !self.remove_triggered {
            proof {
                reveal(removal_reqs);
                assert(reqs_of(self.events@) =~= r0 + removal_reqs(*old(self)));
            }
            return;
        }
        if let Some(hit_voxel) = self.hit_voxel {
            self.emit(InputEvent::Audio(AudioEvent::World(WorldSfx::Destroy, hit_voxel.position)));
            self.emit(InputEvent::Game(GameEvent::RemoveBlock { position: hit_voxel.position }));
            let mesh_updates = get_neighboring_coords(hit_voxel.position);
            self.emit(InputEvent::Game(GameEvent::UpdateMesh { updates: mesh_updates }));
            proof {
                reveal(removal_reqs);
                assert(mesh_updates@ =~= neighbors_of(hit_voxel.position));
                assert(reqs_of(self.events@) =~= r0 + removal_reqs(*old(self)));
            }
        } else {
            proof {
                reveal(removal_reqs);
                assert(reqs_of(self.events@) =~= r0 + removal_reqs(*old(self)));
            }
        }
    }

    /// Copies the kind hit into its group's hotbar slot on a middle click.
    pub fn handle_hotbar_copy(&mut self)
        ensures
            final(self).same_inputs(*old(self)),
            reqs_of(final(self).events@) == reqs_of(old(self).events@) + copy_reqs(*old(self)),
    {
        let ghost r0 = reqs_of(self.events@);
        proof {
            reveal(copy_reqs);
        }
        if !self.middle_pressed {
            assert(reqs_of(self.events@) =~= r0 + copy_reqs(*old(self)));
            return;
        }
        if let Some(hit_voxel) = self.hit_voxel {
            let kind = hit_voxel.kind;
            let group = kind.group();
            if group < self.hotbar.len() {
                let mut hotbar = self.hotbar.clone();
                assert(hotbar@ =~= self.hotbar@);
                hotbar.set(group, kind);
                let ghost h = hotbar@;
                let new_player = Player {
                    hit_voxel: self.hit_voxel,
                    selected_voxel: self.selected_voxel,
                    selected_descriptor: copy_descriptor(&self.selected_descriptor),
                    hotbar_selector: group,
                    hotbar,
                };
                self.emit(InputEvent::Game(GameEvent::ModifyPlayer { player_modified: new_player }));
                assert(h == old(self).hotbar@.update(group as int, kind));
                assert(reqs_of(self.events@) =~= r0 + copy_reqs(*old(self)));
            } else {
                assert(reqs_of(self.events@) =~= r0 + copy_reqs(*old(self)));
            }
        } else {
            assert(reqs_of(self.events@) =~= r0 + copy_reqs(*old(self)));
        }
    }

    /// The interact key on the voxel hit.
    pub fn handle_block_interaction(&mut self)
        ensures
            final(self).same_inputs(*old(self)),
            reqs_of(final(self).events@) == reqs_of(old(self).events@) + interaction_reqs(*old(self)),
    {
        let ghost r0 = reqs_of(self.events@);
        let ghost c = *old(self);
        proof {
            reveal(interaction_reqs);
        }
        let pressed = self.interact_pressed;
        let released = self.interact_released;
        if released {
            self.set_ui(GameUI::Default, CursorGrabMode::Locked, false, true);
        }
        let ghost r1 = reqs_of(self.events@);
        let ghost release = if c.interact_released {
            set_ui_reqs(GameUI::Default, CursorGrabMode::Locked, false, true)
        } else {
            Seq::empty()
        };
        assert(r1 =~= r0 + release);
        if !pressed && !released {
            assert(reqs_of(self.events@) =~= r0 + interaction_reqs(c));
            return;
        }
        let voxel = match self.hit_voxel {
            Some(v) => v,
            None => {
                assert(reqs_of(self.events@) =~= r0 + interaction_reqs(c));
                return;
            },
        };
        let ghost logic = if voxel.kind == VoxelType::Component(ComponentVariants::Switch) && pressed {
            seq![Req::Logic(LogicEvent::UpdateVoxel {
                position: voxel.position,
                new_state: Bits16 { word: if voxel.state.word == 0 { 0xffffu16 } else { 0u16 } },
            })]
        } else if voxel.kind == VoxelType::Component(ComponentVariants::Button) {
            seq![Req::Logic(LogicEvent::UpdateVoxel {
                position: voxel.position,
                new_state: Bits16 { word: if pressed { 0xffffu16 } else { 0u16 } },
            })]
        } else {
            Seq::empty()
        };
        match (voxel.kind, pressed) {
            (VoxelType::Component(ComponentVariants::Switch), true) => {
                let new_state = if voxel.state.is_all_zero() {
                    Bits16::all_ones()
                } else {
                    Bits16::all_zeros()
                };
                self.emit(InputEvent::Logic(LogicEvent::UpdateVoxel { position: voxel.position, new_state }));
            },
            (VoxelType::Component(ComponentVariants::Button), true) => {
                self.emit(InputEvent::Logic(LogicEvent::UpdateVoxel {
                    position: voxel.position,
                    new_state: Bits16::all_ones(),
                }));
            },
            (VoxelType::Component(ComponentVariants::Button), false) => {
                self.emit(InputEvent::Logic(LogicEvent::UpdateVoxel {
                    position: voxel.position,
                    new_state: Bits16::all_zeros(),
                }));
            },
            _ => {},
        }
        let ghost r2 = reqs_of(self.events@);
        assert(r2 =~= r1 + logic);
        if voxel.kind == VoxelType::Component(ComponentVariants::Clock) {
            if pressed {
                self.set_ui(GameUI::ClockWidget, CursorGrabMode::Locked, true, false);
            } else {
                self.set_ui(GameUI::Default, CursorGrabMode::Locked, false, true);
            }
        }
        assert(reqs_of(self.events@) =~= r0 + interaction_reqs(c));
    }

    /// Switches the window without touching the cursor.
    pub fn switch_ui(&mut self, new_ui: GameUI)
        ensures
            final(self).same_inputs(*old(self)),
            final(self).events@ == old(self).events@.push(InputEvent::Game(GameEvent::ToggleUI { new_ui })),
    {
        self.emit(InputEvent::Game(GameEvent::ToggleUI { new_ui }));
    }

    /// Sets the cursor mode and then switches the window.
    pub fn set_ui(&mut self, new_ui: GameUI, mode: CursorGrabMode, show_cursor: bool, enable_input: bool)
        ensures
            final(self).same_inputs(*old(self)),
            final(self).events@ == old(self).events@.push(
                InputEvent::Game(GameEvent::UpdateCursorMode { mode, show_cursor, enable_input }),
            ).push(InputEvent::Game(GameEvent::ToggleUI { new_ui })),
    {
        self.emit(InputEvent::Game(GameEvent::UpdateCursorMode { mode, show_cursor, enable_input }));
        self.emit(InputEvent::Game(GameEvent::ToggleUI { new_ui }));
    }
}


/// Whether a held mouse button fires this frame: at once when it is pressed,
/// then again each time its repeat delay has elapsed while it is held. When
/// it fires, the repeat delay starts over.
pub fn mouse_triggered(just_pressed: bool, held: bool, delay_elapsed: bool) -> (fire: bool)
    ensures
        fire == (just_pressed || (held && delay_elapsed)),
{
    if just_pressed {
        return true;
    }
    held && delay_elapsed
}

/// In the default window or the clock widget, a button under the crosshair
/// is on exactly while the interact key holds it: pressing the key asks for
/// the button to turn fully on, and releasing it (with no new press in the
/// same frame) asks for it to turn off. Pressing the key over a switch asks
/// for it to flip between all off and all on.
pub proof fn lemma_button_on_while_held(c: PlayerInputContext)
    requires
        c.current_ui == GameUI::Default || c.current_ui == GameUI::ClockWidget,
        c.hit_voxel is Some,
    ensures
        ({
            let v = c.hit_voxel->0;
            let on = Req::Logic(LogicEvent::UpdateVoxel { position: v.position, new_state: Bits16 { word: 0xffffu16 } });
            let off = Req::Logic(LogicEvent::UpdateVoxel { position: v.position, new_state: Bits16 { word: 0u16 } });
            &&& v.kind == VoxelType::Component(ComponentVariants::Button) && c.interact_pressed
                ==> frame_reqs(c).contains(on)
            &&& v.kind == VoxelType::Component(ComponentVariants::Button) && c.interact_released
                && !c.interact_pressed ==> frame_reqs(c).contains(off)
            &&& v.kind == VoxelType::Component(ComponentVariants::Switch) && c.interact_pressed
                ==> frame_reqs(c).contains(if v.state.word == 0 { on } else { off })
        }),
{
    reveal(interaction_reqs);
    let v = c.hit_voxel->0;
    let i = interaction_reqs(c);
    let w = world_reqs(c);
    let f = frame_reqs(c);
    let release = if c.interact_released {
        set_ui_reqs(GameUI::Default, CursorGrabMode::Locked, false, true)
    } else {
        Seq::empty()
    };
    if (c.interact_pressed || c.interact_released) && (v.kind == VoxelType::Component(ComponentVariants::Button)
        || (v.kind == VoxelType::Component(ComponentVariants::Switch) && c.interact_pressed)) {
        let k = release.len() as int;
        let e = i[k];
        assert(i.contains(e));
        let pre = if c.current_ui == GameUI::Default {
            placement_reqs(c) + removal_reqs(c) + copy_reqs(c)
        } else {
            Seq::<Req>::empty()
        };
        assert(w =~= pre + i);
        assert(w[pre.len() + k] == e);
        assert(w.contains(e));
        if c.has_window {
            assert(f =~= w + shortcut_reqs(c));
            assert(f[pre.len() + k] == e);
        }
        assert(f.contains(e));
    }
}

} // verus!

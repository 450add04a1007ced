use vstd::prelude::*;

use crate::cables::{cable_targets, cables_at, count_neighbors, neighbor_flag};
use crate::game::{
    clamp_int, scroll_hotbar, speed_of, CursorGrabMode, GameEvent, GameState, GameUI, Player, SimulationTimer,
};
use crate::bits::Bits16;
use crate::logic::{apply_events, gate_events, is_cable, logic_event_handler, logic_system, refreshed, LogicEvent};
use crate::saves::{sanitize_filename, sanitized};
use crate::wires::propagation_events;
use crate::saves::SavedWorld;
use crate::voxel::{HOTBAR_SIZE, IVec3, Voxel, VoxelType};
use crate::world::{
    add_voxel, asset_for, has_voxel, index_of, remove_voxel, voxel_at, VoxelAsset, VoxelDefinition, VoxelMap,
    lemma_index_of_unique,
};

verus! {

/// How a voxel is drawn: the block mesh of its texture row, or a cable mesh
/// with arms towards the flagged neighbours.
#[derive(Clone, Copy, Debug)]
pub enum VoxelMesh {
    Block { row: usize },
    Cable { row: usize, connections: [bool; 6] },
}

/// A cable to redraw: its entity, its texture row (if drawing data is
/// recorded for its kind) and its connection flags.
#[derive(Clone, Copy, Debug)]
pub struct CableRedraw {
    pub entity: u64,
    pub row: Option<usize>,
    pub connections: [bool; 6],
}

/// The outside work a request asks of the game loop.
#[derive(Clone, Debug)]
pub enum EventAction {
    /// Nothing beyond the change of the session.
    Nothing,
    /// Stop handling the requests of this frame, and the scroll wheel.
    StopFrame,
    /// Show a new voxel; report the entity back with [`GameSession::record_voxel`].
    Spawn { voxel: Voxel, mesh: VoxelMesh },
    /// Remove the entity of a removed voxel from the scene.
    Despawn { entity: u64 },
    /// Give these cables new meshes.
    Redraw { cables: Vec<CableRedraw> },
    /// Set how the window holds the cursor and whether the player moves.
    SetCursor { mode: CursorGrabMode, show_cursor: bool, enable_input: bool },
    /// Write this world to its save file.
    Save { world: SavedWorld },
    /// Read the world of this name from its save file.
    Load { world_name: String },
    /// Delete the save file of this world.
    Delete { world_name: String },
    /// Change the state of the game.
    SetState { state: GameState },
    /// Run the simulation at this speed setting.
    SetSpeed { setting: u64 },
    /// No drawing data is recorded for this kind of voxel.
    MissingAsset { kind: VoxelType },
}

/// The state the game's requests act on: the voxel world, the player, the
/// window shown, the name of the world being played and the simulation speed.
pub struct GameSession {
    map: VoxelMap,
    player: Player,
    ui: GameUI,
    world_name: String,
    timer: SimulationTimer,
}

/// The texture row recorded for kind `k`, if any.
pub open spec fn row_for(assets: Seq<VoxelAsset>, k: VoxelType) -> Option<usize> {
    match asset_for(assets, k) {
        Some(a) => Some(a.texture_row),
        None => None,
    }
}

/// `c` redraws the cable `v` shown by entity `e` in world `m`.
pub open spec fn redraws(m: VoxelMap, e: u64, v: Voxel, c: CableRedraw) -> bool {
    &&& c.entity == e
    &&& c.row == row_for(m.asset_map@, v.kind)
    &&& forall|d: int| 0 <= d < 6 ==> #[trigger] c.connections@[d] == neighbor_flag(m.voxel_map@, v, d)
}

/// `cs` redraws the cables `ts`, one for one and in order, in world `m`.
pub open spec fn redraws_all(m: VoxelMap, ts: Seq<(u64, Voxel)>, cs: Seq<CableRedraw>) -> bool {
    &&& cs.len() == ts.len()
    &&& forall|k: int| 0 <= k < ts.len() ==> redraws(m, ts[k].0, ts[k].1, #[trigger] cs[k])
}

/// The cables among the loaded voxels `vs`, in order, each with the entity
/// that shows its position.
pub open spec fn loaded_cables(s: Seq<Voxel>, ents: Seq<u64>, vs: Seq<Voxel>) -> Seq<(u64, Voxel)>
    decreases vs.len(),
{
    if vs.len() == 0 {
        Seq::empty()
    } else {
        let rest = loaded_cables(s, ents, vs.drop_last());
        let v = vs.last();
        if is_cable(v.kind) && has_voxel(s, v.position) {
            rest.push((ents[index_of(s, v.position)], v))
        } else {
            rest
        }
    }
}

/// How a voxel placed by the player is drawn, when its position is free: a
/// cable gets a mesh linked to its neighbours (texture row 0 without drawing
/// data); another voxel gets the block mesh of its texture row.
pub open spec fn placement_action(m: VoxelMap, voxel: Voxel, r: EventAction) -> bool {
    if has_voxel(m.voxel_map@, voxel.position) {
        r is Nothing
    } else if is_cable(voxel.kind) {
        r matches EventAction::Spawn { voxel: v, mesh: VoxelMesh::Cable { row, connections } } && v
            == voxel && row == (match row_for(m.asset_map@, voxel.kind) {
            Some(x) => x,
            None => 0,
        }) && forall|d: int| 0 <= d < 6 ==> #[trigger] connections@[d] == neighbor_flag(m.voxel_map@, voxel, d)
    } else {
        match row_for(m.asset_map@, voxel.kind) {
            Some(row) => r == EventAction::Spawn { voxel, mesh: VoxelMesh::Block { row } },
            None => r == EventAction::MissingAsset { kind: voxel.kind },
        }
    }
}

/// The cables to redraw for `ts` in world `m`.
pub fn redraw_cables(m: &VoxelMap, ts: &Vec<(u64, Voxel)>) -> (r: Vec<CableRedraw>)
    requires
        m.wf(),
    ensures
        redraws_all(*m, ts@, r@),
{
    let mut out: Vec<CableRedraw> = Vec::new();
    let mut k: usize = 0;
    while k < ts.len()
        invariant
            m.wf(),
            k <= ts@.len(),
            out@.len() == k,
            forall|j: int| 0 <= j < k ==> redraws(*m, ts@[j].0, ts@[j].1, #[trigger] out@[j]),
        decreases ts@.len() - k,
    {
        let (e, v) = ts[k];
        let connections = count_neighbors(v, m);
        let row = match m.asset(v.kind) {
            Some(a) => Some(a.texture_row),
            None => None,
        };
        out.push(CableRedraw { entity: e, row, connections });
        k = k + 1;
    }
    out
}

impl GameSession {
    #[verifier::type_invariant]
    spec fn well_formed(self) -> bool {
        self.map.wf()
    }

    /// The voxel world.
    pub closed spec fn map_view(self) -> VoxelMap {
        self.map
    }

    /// The player.
    pub closed spec fn player_view(self) -> Player {
        self.player
    }

    /// The window shown.
    pub closed spec fn ui_view(self) -> GameUI {
        self.ui
    }

    /// The name of the world being played.
    pub closed spec fn world_name_view(self) -> Seq<char> {
        self.world_name@
    }

    /// The simulation speed setting.
    pub closed spec fn speed_view(self) -> u64 {
        self.timer.rate_spec()
    }

    /// A session on an empty world drawn with `assets`, with the default
    /// player, the main screen shown, no world name and the first running speed.
    pub fn new(assets: Vec<VoxelAsset>) -> (r: GameSession)
        ensures
            r.map_view().voxel_map@.len() == 0,
            r.map_view().asset_map@ == assets@,
            r.player_view().hotbar_selector == 0,
            r.player_view().hotbar@.len() == HOTBAR_SIZE,
            r.ui_view() == GameUI::MainScreen,
            r.world_name_view() == Seq::<char>::empty(),
            r.speed_view() == 1,
    {
        GameSession {
            map: VoxelMap::new(assets),
            player: Player::default(),
            ui: GameUI::MainScreen,
            world_name: String::new(),
            timer: SimulationTimer::new(),
        }
    }

    /// The voxel world; it is always well formed.
    pub fn map(&self) -> (r: &VoxelMap)
        ensures
            *r == self.map_view(),
            r.wf(),
    {
        proof {
            use_type_invariant(self);
        }
        &self.map
    }

    /// The player.
    pub fn player(&self) -> (r: &Player)
        ensures
            *r == self.player_view(),
    {
        &self.player
    }

    /// The window shown.
    pub fn ui(&self) -> (r: GameUI)
        ensures
            r == self.ui_view(),
    {
        self.ui
    }

    /// The name of the world being played.
    pub fn world_name(&self) -> (r: &String)
        ensures
            r@ == self.world_name_view(),
    {
        &self.world_name
    }

    /// The simulation speed setting.
    pub fn speed(&self) -> (r: u64)
        ensures
            r == self.speed_view(),
            r < 5,
    {
        self.timer.rate()
    }

    /// The simulation ticks per second of the speed setting (0 when paused).
    pub fn ticks_per_second(&self) -> (r: u64)
        ensures
            r == speed_of(self.speed_view() as int),
    {
        self.timer.ticks_per_second()
    }

    /// Records what the player aims at. `ray` holds, when the view ray hits
    /// something, the cell it hits, the free cell in front of it, and whether
    /// the hit is within reach. The voxel in the hit cell becomes the voxel
    /// hit; within reach, a voxel of the selected hotbar kind in the free cell
    /// becomes the voxel that would be placed. The selected kind's definition
    /// is recorded either way.
    pub fn aim(&mut self, ray: Option<(IVec3, IVec3, bool)>)
        requires
            old(self).player_view().hotbar_selector < old(self).player_view().hotbar@.len(),
        ensures
            ({
                let p0 = old(self).player_view();
                let p = final(self).player_view();
                let kind = p0.hotbar@[p0.hotbar_selector as int];
                &&& p.hotbar_selector == p0.hotbar_selector
                &&& p.hotbar@ == p0.hotbar@
                &&& match ray {
                    Some((cell, free, in_reach)) => {
                        &&& p.hit_voxel == voxel_at(old(self).map_view().voxel_map@, cell)
                        &&& p.selected_voxel == if in_reach {
                            Some(Voxel { kind, position: free, direction: 0, state: Bits16 { word: 0 } })
                        } else {
                            None::<Voxel>
                        }
                    },
                    None => p.hit_voxel == p0.hit_voxel && p.selected_voxel == p0.selected_voxel,
                }
                &&& match asset_for(old(self).map_view().asset_map@, kind) {
                    Some(a) => p.selected_descriptor matches Some(d) && d.voxel_id == a.definition.voxel_id
                        && d.name@ == a.definition.name@,
                    None => p.selected_descriptor is None,
                }
            }),
            final(self).map_view() == old(self).map_view(),
            final(self).ui_view() == old(self).ui_view(),
            final(self).world_name_view() == old(self).world_name_view(),
            final(self).speed_view() == old(self).speed_view(),
    {
        proof {
            use_type_invariant(&*self);
        }
        let kind = self.player.hotbar[self.player.hotbar_selector];
        match ray {
            Some((cell, free, in_reach)) => {
                let hit = self.map.get(cell);
                let selected = if in_reach {
                    Some(Voxel { kind, position: free, direction: 0, state: Bits16::all_zeros() })
                } else {
                    None
                };
                self.player.hit_voxel = hit;
                self.player.selected_voxel = selected;
            },
            None => {},
        }
        let descriptor = match self.map.asset(kind) {
            Some(a) => Some(VoxelDefinition { voxel_id: a.definition.voxel_id, name: a.definition.name.clone() }),
            None => None,
        };
        self.player.selected_descriptor = descriptor;
    }

    /// Names the world after the name typed, without the characters that
    /// file names may not hold.
    pub fn name_world(&mut self, typed: &str)
        ensures
            final(self).world_name_view() == sanitized(typed@),
            final(self).map_view() == old(self).map_view(),
            final(self).player_view() == old(self).player_view(),
            final(self).ui_view() == old(self).ui_view(),
            final(self).speed_view() == old(self).speed_view(),
    {
        proof {
            use_type_invariant(&*self);
        }
        self.world_name = sanitize_filename(typed);
    }

    /// One tick of the simulation: the logic requests of the world.
    pub fn logic_tick(&self) -> (r: Vec<LogicEvent>)
        ensures
            r@ == gate_events(self.map_view().voxel_map@, self.map_view().voxel_map@.len() as int)
                + propagation_events(self.map_view().voxel_map@, self.map_view().voxel_map@.len() as int),
    {
        proof {
            use_type_invariant(self);
        }
        logic_system(&self.map)
    }

    /// Applies logic requests to the world; returns the entities whose voxel
    /// changed, with the new voxel.
    pub fn apply_logic(&mut self, events: &Vec<LogicEvent>) -> (changed: Vec<(u64, Voxel)>)
        ensures
            final(self).map_view().voxel_map@ == apply_events(old(self).map_view().voxel_map@, events@),
            final(self).map_view().entity_map@ == old(self).map_view().entity_map@,
            final(self).map_view().asset_map@ == old(self).map_view().asset_map@,
            changed@ == refreshed(old(self).map_view().voxel_map@, old(self).map_view().entity_map@, events@),
            final(self).player_view() == old(self).player_view(),
            final(self).ui_view() == old(self).ui_view(),
            final(self).world_name_view() == old(self).world_name_view(),
            final(self).speed_view() == old(self).speed_view(),
    {
        proof {
            use_type_invariant(&*self);
        }
        let mut map = VoxelMap::new(Vec::new());
        std::mem::swap(&mut map, &mut self.map);
        let changed = logic_event_handler(&mut map, events);
        self.map = map;
        changed
    }

    /// Records a voxel that the game loop has shown with `entity`, unless a
    /// voxel already stands at its position. Returns whether it was recorded.
    pub fn record_voxel(&mut self, voxel: Voxel, entity: u64) -> (added: bool)
        ensures
            added == !has_voxel(old(self).map_view().voxel_map@, voxel.position),
            added ==> final(self).map_view().voxel_map@ == old(self).map_view().voxel_map@.push(voxel)
                && final(self).map_view().entity_map@ == old(self).map_view().entity_map@.push(entity),
            !added ==> final(self).map_view() == old(self).map_view(),
            final(self).map_view().asset_map@ == old(self).map_view().asset_map@,
            final(self).player_view() == old(self).player_view(),
            final(self).ui_view() == old(self).ui_view(),
            final(self).world_name_view() == old(self).world_name_view(),
            final(self).speed_view() == old(self).speed_view(),
    {
        proof {
            use_type_invariant(&*self);
        }
        if self.map.find(voxel.position).is_some() {
            return false;
        }
        let mut map = VoxelMap::new(Vec::new());
        std::mem::swap(&mut map, &mut self.map);
        let added = add_voxel(&mut map, voxel, entity);
        self.map = map;
        added
    }

    /// One step of the scroll wheel over the hotbar.
    pub fn scroll(&mut self, step: i8)
        ensures
            final(self).player_view().hotbar_selector as int == ((old(self).player_view().hotbar_selector as isize) - step) % 9,
            final(self).player_view().hotbar@ == old(self).player_view().hotbar@,
            final(self).player_view().hit_voxel == old(self).player_view().hit_voxel,
            final(self).player_view().selected_voxel == old(self).player_view().selected_voxel,
            final(self).player_view().selected_descriptor == old(self).player_view().selected_descriptor,
            final(self).map_view() == old(self).map_view(),
            final(self).ui_view() == old(self).ui_view(),
            final(self).world_name_view() == old(self).world_name_view(),
            final(self).speed_view() == old(self).speed_view(),
    {
        proof {
            use_type_invariant(&*self);
        }
        self.player.hotbar_selector = scroll_hotbar(self.player.hotbar_selector, step);
    }

    /// What to do with a voxel read from a save file: its drawing data must
    /// be recorded; it is shown with the block mesh of its row unless a voxel
    /// already stands at its position.
    pub fn load_step(&self, voxel: Voxel) -> (r: EventAction)
        ensures
            match row_for(self.map_view().asset_map@, voxel.kind) {
                None => r == EventAction::MissingAsset { kind: voxel.kind },
                Some(row) => if has_voxel(self.map_view().voxel_map@, voxel.position) {
                    r is Nothing
                } else {
                    r == EventAction::Spawn { voxel, mesh: VoxelMesh::Block { row } }
                },
            },
    {
        proof {
            use_type_invariant(self);
        }
        let row = match self.map.asset(voxel.kind) {
            Some(a) => a.texture_row,
            None => {
                return EventAction::MissingAsset { kind: voxel.kind };
            },
        };
        if self.map.find(voxel.position).is_some() {
            EventAction::Nothing
        } else {
            EventAction::Spawn { voxel, mesh: VoxelMesh::Block { row } }
        }
    }

    /// After a world is loaded: the cables among its voxels, each redrawn
    /// with the connections it has in the loaded world.
    pub fn load_redraws(&self, voxels: &Vec<Voxel>) -> (r: Vec<CableRedraw>)
        ensures
            redraws_all(
                self.map_view(),
                loaded_cables(self.map_view().voxel_map@, self.map_view().entity_map@, voxels@),
                r@,
            ),
    {
        proof {
            use_type_invariant(self);
        }
        let ghost s = self.map.voxel_map@;
        let ghost ents = self.map.entity_map@;
        let mut ts: Vec<(u64, Voxel)> = Vec::new();
        let mut i: usize = 0;
        while i < voxels.len()
            invariant
                self.map.wf(),
                s == self.map.voxel_map@,
                ents == self.map.entity_map@,
                i <= voxels@.len(),
                ts@ == loaded_cables(s, ents, voxels@.take(i as int)),
            decreases voxels@.len() - i,
        {
            let v = voxels[i];
            assert(voxels@.take(i + 1).drop_last() =~= voxels@.take(i as int));
            assert(voxels@.take(i + 1).last() == v);
            let cable = match v.kind {
                VoxelType::Wire(_) => true,
                VoxelType::BundledWire => true,
                _ => false,
            };
            if cable {
                match self.map.find(v.position) {
                    Some(k) => {
                        ts.push((self.map.entity_map[k], v));
                    },
                    None => {},
                }
            }
            i = i + 1;
        }
        assert(voxels@.take(voxels@.len() as int) =~= voxels@);
        redraw_cables(&self.map, &ts)
    }

    /// Carries out one request of the game loop: changes the session and
    /// tells what outside work is left.
    pub fn handle_event(&mut self, event: &GameEvent) -> (r: EventAction)
        ensures
            match *event {
                GameEvent::Skip => r is StopFrame && *final(self) == *old(self),
                GameEvent::PlaceBlock { voxel } => *final(self) == *old(self) && placement_action(
                    old(self).map_view(),
                    voxel,
                    r,
                ),
                GameEvent::RemoveBlock { position } => {
                    let s0 = old(self).map_view().voxel_map@;
                    let e0 = old(self).map_view().entity_map@;
                    &&& final(self).player_view() == old(self).player_view()
                    &&& final(self).ui_view() == old(self).ui_view()
                    &&& final(self).world_name_view() == old(self).world_name_view()
                    &&& final(self).speed_view() == old(self).speed_view()
                    &&& final(self).map_view().asset_map@ == old(self).map_view().asset_map@
                    &&& !has_voxel(final(self).map_view().voxel_map@, position)
                    &&& if has_voxel(s0, position) {
                        let i = index_of(s0, position);
                        &&& r == EventAction::Despawn { entity: e0[i] }
                        &&& final(self).map_view().voxel_map@ == s0.remove(i)
                        &&& final(self).map_view().entity_map@ == e0.remove(i)
                    } else {
                        r is Nothing && final(self).map_view() == old(self).map_view()
                    }
                },
                GameEvent::UpdateMesh { updates } => *final(self) == *old(self) && (r matches EventAction::Redraw { cables } && redraws_all(
                    old(self).map_view(),
                    cable_targets(
                        old(self).map_view().voxel_map@,
                        old(self).map_view().entity_map@,
                        updates@,
                    ),
                    cables@,
                )),
                GameEvent::UpdateCursorMode { mode, show_cursor, enable_input } => *final(self)
                    == *old(self) && r == EventAction::SetCursor { mode, show_cursor, enable_input },
                GameEvent::SaveWorld { world_name } => {
                    &&& final(self).world_name_view() == world_name@
                    &&& final(self).map_view() == old(self).map_view()
                    &&& final(self).player_view() == old(self).player_view()
                    &&& final(self).ui_view() == old(self).ui_view()
                    &&& final(self).speed_view() == old(self).speed_view()
                    &&& r matches EventAction::Save { world } && world.world_name@ == world_name@
                        && world.voxels@ == old(self).map_view().voxel_map@
                },
                GameEvent::LoadWorld { world_name } => {
                    &&& final(self).world_name_view() == world_name@
                    &&& final(self).map_view() == old(self).map_view()
                    &&& final(self).player_view() == old(self).player_view()
                    &&& final(self).ui_view() == old(self).ui_view()
                    &&& final(self).speed_view() == old(self).speed_view()
                    &&& r matches EventAction::Load { world_name: n } && n@ == world_name@
                },
                GameEvent::DeleteWorld { world_name } => *final(self) == *old(self) && (r matches EventAction::Delete { world_name: n } && n@ == world_name@),
                GameEvent::StateChange { new_state } => *final(self) == *old(self) && r
                    == EventAction::SetState { state: new_state },
                GameEvent::ToggleUI { new_ui } => {
                    &&& r is Nothing
                    &&& final(self).ui_view() == new_ui
                    &&& final(self).map_view() == old(self).map_view()
                    &&& final(self).player_view() == old(self).player_view()
                    &&& final(self).world_name_view() == old(self).world_name_view()
                    &&& final(self).speed_view() == old(self).speed_view()
                },
                GameEvent::ModifyPlayer { player_modified } => {
                    &&& r is Nothing
                    &&& final(self).player_view()@ == player_modified@
                    &&& final(self).map_view() == old(self).map_view()
                    &&& final(self).ui_view() == old(self).ui_view()
                    &&& final(self).world_name_view() == old(self).world_name_view()
                    &&& final(self).speed_view() == old(self).speed_view()
                },
                GameEvent::SpeedChange { change } => {
                    &&& final(self).speed_view() as int == clamp_int(old(self).speed_view() + change, 0, 4)
                    &&& r == EventAction::SetSpeed { setting: final(self).speed_view() }
                    &&& final(self).map_view() == old(self).map_view()
                    &&& final(self).player_view() == old(self).player_view()
                    &&& final(self).ui_view() == old(self).ui_view()
                    &&& final(self).world_name_view() == old(self).world_name_view()
                },
            },
    {
        proof {
            use_type_invariant(&*self);
        }
        match event {
            GameEvent::Skip => EventAction::StopFrame,
            GameEvent::PlaceBlock { voxel } => self.placement(*voxel),
            GameEvent::RemoveBlock { position } => {
                if self.map.find(*position).is_none() {
                    return EventAction::Nothing;
                }
                let mut map = VoxelMap::new(Vec::new());
                std::mem::swap(&mut map, &mut self.map);
                let removed = remove_voxel(&mut map, *position);
                self.map = map;
                match removed {
                    Some(entity) => EventAction::Despawn { entity },
                    None => EventAction::Nothing,
                }
            },
            GameEvent::UpdateMesh { updates } => {
                let mut ps: Vec<IVec3> = Vec::new();
                let mut d: usize = 0;
                while d < 6
                    invariant
                        d <= 6,
                        ps@ == updates@.take(d as int),
                    decreases 6 - d,
                {
                    ps.push(updates[d]);
                    assert(updates@.take(d + 1) =~= updates@.take(d as int).push(updates@[d as int]));
                    d = d + 1;
                }
                assert(updates@.take(6) =~= updates@);
                let ts = cables_at(&ps, &self.map);
                EventAction::Redraw { cables: redraw_cables(&self.map, &ts) }
            },
            GameEvent::UpdateCursorMode { mode, show_cursor, enable_input } => EventAction::SetCursor {
                mode: *mode,
                show_cursor: *show_cursor,
                enable_input: *enable_input,
            },
            GameEvent::SaveWorld { world_name } => {
                self.world_name = world_name.clone();
                EventAction::Save {
                    world: SavedWorld { world_name: world_name.clone(), voxels: self.map.voxel_map.clone() },
                }
            },
            GameEvent::LoadWorld { world_name } => {
                self.world_name = world_name.clone();
                EventAction::Load { world_name: world_name.clone() }
            },
            GameEvent::DeleteWorld { world_name } => EventAction::Delete { world_name: world_name.clone() },
            GameEvent::StateChange { new_state } => EventAction::SetState { state: *new_state },
            GameEvent::ToggleUI { new_ui } => {
                self.ui = *new_ui;
                EventAction::Nothing
            },
            GameEvent::ModifyPlayer { player_modified } => {
                self.player = player_modified.duplicate();
                EventAction::Nothing
            },
            GameEvent::SpeedChange { change } => {
                let mut timer = SimulationTimer::new();
                std::mem::swap(&mut timer, &mut self.timer);
                let setting = timer.change_speed(*change);
                self.timer = timer;
                EventAction::SetSpeed { setting }
            },
        }
    }

    fn placement(&self, voxel: Voxel) -> (r: EventAction)
        requires
            self.map.wf(),
        ensures
            placement_action(self.map, voxel, r),
    {
        if self.map.find(voxel.position).is_some() {
            return EventAction::Nothing;
        }
        let row = match self.map.asset(voxel.kind) {
            Some(a) => Some(a.texture_row),
            None => None,
        };
        let cable = match voxel.kind {
            VoxelType::Wire(_) => true,
            VoxelType::BundledWire => true,
            _ => false,
        };
        if cable {
            let connections = count_neighbors(voxel, &self.map);
            let row = match row {
                Some(x) => x,
                None => 0,
            };
            EventAction::Spawn { voxel, mesh: VoxelMesh::Cable { row, connections } }
        } else {
            match row {
                Some(row) => EventAction::Spawn { voxel, mesh: VoxelMesh::Block { row } },
                None => EventAction::MissingAsset { kind: voxel.kind },
            }
        }
    }
}

} // verus!

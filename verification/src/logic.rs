use vstd::prelude::*;

use crate::bits::{Bits16, bit, bitword, lemma_bit_set, lemma_bit_clear};
use crate::voxel::{
    IVec3, Voxel, VoxelType, NotVariants, AndVariants, OrVariants, XorVariants, LatchVariants,
    vplus, vminus, vzero,
};
use crate::world::{VoxelMap, has_voxel, voxel_at, index_of, positions_distinct, lemma_index_of_unique};
use crate::wires::{propagate_wires, propagation_events};

verus! {

/// A change of the logic world: set the word of the voxel at `position`.
#[derive(Clone, Copy, Debug, PartialEq, Eq, Structural)]
pub enum LogicEvent {
    /// Does nothing.
    Skip,
    UpdateVoxel { position: IVec3, new_state: Bits16 },
}

/// Whether a voxel of kind `k` carries signal channel `channel`.
pub open spec fn carries_spec(k: VoxelType, channel: u8) -> bool {
    match k {
        VoxelType::Wire(ch) => ch == channel,
        VoxelType::BundledWire => true,
        _ => false,
    }
}

/// Whether `k` is a cable: a single-channel or a bundled wire.
pub open spec fn is_cable(k: VoxelType) -> bool {
    match k {
        VoxelType::Wire(_) => true,
        VoxelType::BundledWire => true,
        _ => false,
    }
}

/// Returns `true` when `voxel` is capable of transporting `channel`.
pub fn carries(voxel: &Voxel, channel: u8) -> (r: bool)
    ensures
        r == carries_spec(voxel.kind, channel),
{
    match voxel.kind {
        VoxelType::Wire(ch) => ch == channel,
        VoxelType::BundledWire => true,
        _ => false,
    }
}

/// The word a voxel of kind `k` keeps of `w`: a single-channel wire keeps
/// only its own channel, every other kind keeps the whole word.
pub open spec fn clamp_spec(k: VoxelType, w: u16) -> u16 {
    match k {
        VoxelType::Wire(ch) => if bit(w, ch) {
            0u16 | (1u16 << (ch as u16))
        } else {
            0u16
        },
        _ => w,
    }
}

/// Ensures `word` only stores information that `kind` is allowed to keep:
/// a wire of channel `n` keeps exactly bit `n` and clears the rest; any other
/// kind keeps the word unchanged.
pub fn clamp_state(kind: &VoxelType, word: Bits16) -> (r: Bits16)
    ensures
        r.word == clamp_spec(*kind, word.word),
{
    let mut word = word;
    if let VoxelType::Wire(ch) = *kind {
        let keep = word.get(ch);
        word = Bits16::all_zeros();
        if keep {
            word.set(ch);
        }
    }
    word
}

/// The way a voxel facing `direction` points: 1 is +Z, 2 is +X, 3 is -Z, 4 is
/// -X; any other value points nowhere.
pub open spec fn forward_of(direction: usize) -> IVec3 {
    if direction == 1 {
        IVec3 { x: 0, y: 0, z: 1 }
    } else if direction == 2 {
        IVec3 { x: 1, y: 0, z: 0 }
    } else if direction == 3 {
        IVec3 { x: 0, y: 0, z: -1i32 }
    } else if direction == 4 {
        IVec3 { x: -1i32, y: 0, z: 0 }
    } else {
        vzero()
    }
}

/// The horizontal axis perpendicular to `forward`.
pub open spec fn side_of(forward: IVec3) -> IVec3 {
    IVec3 {
        x: if forward.z < 0 { (-forward.z) as i32 } else { forward.z },
        y: 0,
        z: if forward.x < 0 { (-forward.x) as i32 } else { forward.x },
    }
}

pub open spec fn is_not_gate(k: VoxelType) -> bool {
    k == VoxelType::Not(NotVariants::BufferGate) || k == VoxelType::Not(NotVariants::NotGate)
}

pub open spec fn is_structure(k: VoxelType) -> bool {
    k is Structure
}

/// The positions a voxel reads from: behind a NOT or buffer gate, on both
/// sides of any other voxel, and none for a building block.
pub open spec fn inputs_of(v: Voxel) -> Seq<IVec3> {
    let f = forward_of(v.direction);
    let s = side_of(f);
    if is_structure(v.kind) {
        Seq::empty()
    } else if is_not_gate(v.kind) {
        seq![vminus(v.position, f)]
    } else {
        seq![vplus(v.position, s), vminus(v.position, s)]
    }
}

/// The position a voxel drives: the cell in front of it, and the origin for a
/// building block.
pub open spec fn output_of(v: Voxel) -> IVec3 {
    if is_structure(v.kind) {
        vzero()
    } else {
        vplus(v.position, forward_of(v.direction))
    }
}

/// The input positions and the output position of a voxel.
pub fn voxel_directions(voxel: &Voxel) -> (r: (Vec<IVec3>, IVec3))
    ensures
        r.0@ == inputs_of(*voxel),
        r.1 == output_of(*voxel),
{
    let pos = voxel.position;
    let forward = if voxel.direction == 1 {
        IVec3::new(0, 0, 1)
    } else if voxel.direction == 2 {
        IVec3::new(1, 0, 0)
    } else if voxel.direction == 3 {
        IVec3::new(0, 0, -1)
    } else if voxel.direction == 4 {
        IVec3::new(-1, 0, 0)
    } else {
        IVec3::new(0, 0, 0)
    };
    let side = IVec3::new(
        if forward.z < 0 { -forward.z } else { forward.z },
        0,
        if forward.x < 0 { -forward.x } else { forward.x },
    );
    let is_not = match voxel.kind {
        VoxelType::Not(NotVariants::BufferGate) => true,
        VoxelType::Not(NotVariants::NotGate) => true,
        _ => false,
    };
    let mut inputs: Vec<IVec3> = Vec::new();
    if is_not {
        inputs.push(pos.minus(forward));
    } else {
        inputs.push(pos.plus(side));
        inputs.push(pos.minus(side));
    }
    let mut output = pos.plus(forward);
    if let VoxelType::Structure(_) = voxel.kind {
        inputs.clear();
        output = IVec3::new(0, 0, 0);
    }
    proof {
        assert(inputs@ =~= inputs_of(*voxel));
    }
    (inputs, output)
}

/// Whether the voxel of `s` at `p`, if any, holds a nonzero word.
pub open spec fn signal_at(s: Seq<Voxel>, p: IVec3) -> bool {
    match voxel_at(s, p) {
        Some(v) => v.state.word != 0,
        None => false,
    }
}

/// The boolean output a gate of kind `k` computes from its two input
/// signals and its current word; `None` for a voxel that is not a gate.
pub open spec fn gate_output(k: VoxelType, a: bool, b: bool, cur: u16) -> Option<bool> {
    match k {
        VoxelType::Not(NotVariants::NotGate) => Some(!a),
        VoxelType::Not(NotVariants::BufferGate) => Some(a),
        VoxelType::And(AndVariants::AndGate) => Some(a && b),
        VoxelType::And(AndVariants::NandGate) => Some(!(a && b)),
        VoxelType::Or(OrVariants::OrGate) => Some(a || b),
        VoxelType::Or(OrVariants::NorGate) => Some(!(a || b)),
        VoxelType::Xor(XorVariants::XorGate) => Some(a != b),
        VoxelType::Xor(XorVariants::XnorGate) => Some(a == b),
        VoxelType::Latch(LatchVariants::DFlipFlop) => Some(if b { a } else { cur != 0 }),
        _ => None,
    }
}

/// The first and second input signals of `v` in the world `s` (an input that
/// does not exist reads as off).
pub open spec fn input_signal(s: Seq<Voxel>, v: Voxel, slot: int) -> bool {
    slot < inputs_of(v).len() && signal_at(s, inputs_of(v)[slot])
}

/// The new word of gate `v` in world `s`, when it differs from the word it
/// holds; `None` for a voxel that is not a gate or whose word stays.
pub open spec fn gate_update(s: Seq<Voxel>, v: Voxel) -> Option<Bits16> {
    match gate_output(v.kind, input_signal(s, v, 0), input_signal(s, v, 1), v.state.word) {
        Some(on) => {
            let w: u16 = if on { 0xffffu16 } else { 0u16 };
            if w != v.state.word {
                Some(Bits16 { word: w })
            } else {
                None
            }
        },
        None => None,
    }
}

/// Computes a gate's next word from the signals at its inputs. Returns the
/// word when it differs from the word it holds.
pub fn simulate_gate(voxel: &Voxel, voxels: &VoxelMap) -> (r: Option<Bits16>)
    requires
        voxels.wf(),
    ensures
        r == gate_update(voxels.voxel_map@, *voxel),
{
    let (ins, _) = voxel_directions(voxel);
    let mut in_sig = [false, false];
    let mut slot: usize = 0;
    while slot < 2 && slot < ins.len()
        invariant
            voxels.wf(),
            ins@ == inputs_of(*voxel),
            slot <= 2,
            slot <= ins@.len(),
            forall|k: int| 0 <= k < 2 ==> #[trigger] in_sig@[k] == (k < slot && input_signal(
                voxels.voxel_map@,
                *voxel,
                k,
            )),
        decreases 2 - slot,
    {
        let sig = match voxels.get(ins[slot]) {
            Some(v) => v.state.any_set(),
            None => false,
        };
        in_sig[slot] = sig;
        slot = slot + 1;
    }
    assert(in_sig@[0] == input_signal(voxels.voxel_map@, *voxel, 0));
    assert(in_sig@[1] == input_signal(voxels.voxel_map@, *voxel, 1));
    let a = in_sig[0];
    let b = in_sig[1];
    let out_bool = match voxel.kind {
        VoxelType::Not(NotVariants::NotGate) => !a,
        VoxelType::Not(NotVariants::BufferGate) => a,
        VoxelType::And(AndVariants::AndGate) => a && b,
        VoxelType::And(AndVariants::NandGate) => !(a && b),
        VoxelType::Or(OrVariants::OrGate) => a || b,
        VoxelType::Or(OrVariants::NorGate) => !(a || b),
        VoxelType::Xor(XorVariants::XorGate) => a != b,
        VoxelType::Xor(XorVariants::XnorGate) => a == b,
        VoxelType::Latch(LatchVariants::DFlipFlop) => {
            if b {
                a
            } else {
                voxel.state.any_set()
            }
        },
        _ => {
            return None;
        },
    };
    let new_state = bitword(out_bool);
    if new_state != voxel.state {
        Some(new_state)
    } else {
        None
    }
}

/// `v` holding the word `w`.
pub open spec fn with_state(v: Voxel, w: Bits16) -> Voxel {
    Voxel { kind: v.kind, position: v.position, direction: v.direction, state: w }
}

/// The world `s` after event `e`: an update sets the word of the voxel at its
/// position, when one stands there.
pub open spec fn apply_event(s: Seq<Voxel>, e: LogicEvent) -> Seq<Voxel> {
    match e {
        LogicEvent::Skip => s,
        LogicEvent::UpdateVoxel { position, new_state } => if has_voxel(s, position) {
            s.update(index_of(s, position), with_state(s[index_of(s, position)], new_state))
        } else {
            s
        },
    }
}

/// The world `s` after the events `evs`, in order.
pub open spec fn apply_events(s: Seq<Voxel>, evs: Seq<LogicEvent>) -> Seq<Voxel>
    decreases evs.len(),
{
    if evs.len() == 0 {
        s
    } else {
        apply_event(apply_events(s, evs.drop_last()), evs.last())
    }
}

/// The entity/voxel pairs whose shown voxel must be refreshed after the
/// events `evs`: one for each update that changes a word, with the voxel as
/// it then is.
pub open spec fn refreshed(s: Seq<Voxel>, ents: Seq<u64>, evs: Seq<LogicEvent>) -> Seq<(u64, Voxel)>
    decreases evs.len(),
{
    if evs.len() == 0 {
        Seq::empty()
    } else {
        let before = apply_events(s, evs.drop_last());
        let prev = refreshed(s, ents, evs.drop_last());
        match evs.last() {
            LogicEvent::UpdateVoxel { position, new_state } => if has_voxel(before, position)
                && before[index_of(before, position)].state != new_state {
                prev.push((ents[index_of(before, position)], with_state(before[index_of(before, position)], new_state)))
            } else {
                prev
            },
            LogicEvent::Skip => prev,
        }
    }
}

/// Updating words keeps every voxel's kind and position.
pub proof fn lemma_apply_keeps_layout(s: Seq<Voxel>, evs: Seq<LogicEvent>)
    ensures
        apply_events(s, evs).len() == s.len(),
        forall|i: int| 0 <= i < s.len() ==> (#[trigger] apply_events(s, evs)[i]).position == s[i].position
            && apply_events(s, evs)[i].kind == s[i].kind
            && apply_events(s, evs)[i].direction == s[i].direction,
    decreases evs.len(),
{
    if evs.len() > 0 {
        lemma_apply_keeps_layout(s, evs.drop_last());
    }
}

/// Applies logic events to the world: each update sets the word of the voxel
/// at its position, if one stands there and its word differs. Returns the
/// entity and new voxel of every change, for the scene to show.
pub fn logic_event_handler(voxel_map: &mut VoxelMap, logic_events: &Vec<LogicEvent>) -> (changed: Vec<(u64, Voxel)>)
    requires
        old(voxel_map).wf(),
    ensures
        final(voxel_map).wf(),
        final(voxel_map).entity_map@ == old(voxel_map).entity_map@,
        final(voxel_map).asset_map@ == old(voxel_map).asset_map@,
        final(voxel_map).voxel_map@ == apply_events(old(voxel_map).voxel_map@, logic_events@),
        changed@ == refreshed(old(voxel_map).voxel_map@, old(voxel_map).entity_map@, logic_events@),
{
    let ghost s0 = voxel_map.voxel_map@;
    let mut changed: Vec<(u64, Voxel)> = Vec::new();
    let mut k: usize = 0;
    while k < logic_events.len()
        invariant
            voxel_map.wf(),
            k <= logic_events@.len(),
            voxel_map.entity_map@ == old(voxel_map).entity_map@,
            voxel_map.asset_map@ == old(voxel_map).asset_map@,
            voxel_map.voxel_map@ == apply_events(s0, logic_events@.subrange(0, k as int)),
            changed@ == refreshed(s0, old(voxel_map).entity_map@, logic_events@.subrange(0, k as int)),
        decreases logic_events@.len() - k,
    {
        let ghost pre = logic_events@.subrange(0, k as int);
        let ghost post = logic_events@.subrange(0, k + 1);
        assert(post.drop_last() =~= pre);
        match logic_events[k] {
            LogicEvent::Skip => {},
            LogicEvent::UpdateVoxel { position, new_state } => {
                match voxel_map.find(position) {
                    Some(i) => {
                        let v = voxel_map.voxel_map[i];
                        if v.state != new_state {
                            let nv = Voxel {
                                kind: v.kind,
                                position: v.position,
                                direction: v.direction,
                                state: new_state,
                            };
                            let ghost sb = voxel_map.voxel_map@;
                            voxel_map.voxel_map.set(i, nv);
                            changed.push((voxel_map.entity_map[i], nv));
                            proof {
                                let sa = voxel_map.voxel_map@;
                                assert forall|a: int, b: int|
                                    0 <= a < sa.len() && 0 <= b < sa.len() && a != b implies sa[a].position
                                    != sa[b].position by {
                                    assert(sb[a].position != sb[b].position);
                                }
                            }
                        } else {
                            proof {
                                assert(with_state(v, new_state) == v);
                                assert(voxel_map.voxel_map@.update(i as int, v) =~= voxel_map.voxel_map@);
                            }
                        }
                    },
                    None => {},
                }
            },
        }
        k = k + 1;
    }
    assert(logic_events@.subrange(0, logic_events@.len() as int) =~= logic_events@);
    changed
}

/// The updates the gates of `s` issue, for the first `k` voxels in map
/// order: for each gate whose word changes, an update of that gate, followed by
/// an update of the single-channel wire in front of it, if one stands there.
pub open spec fn gate_events(s: Seq<Voxel>, k: int) -> Seq<LogicEvent>
    decreases k,
{
    if k <= 0 {
        Seq::empty()
    } else {
        let prev = gate_events(s, k - 1);
        let v = s[k - 1];
        match gate_update(s, v) {
            Some(ns) => {
                let own = prev.push(LogicEvent::UpdateVoxel { position: v.position, new_state: ns });
                match voxel_at(s, output_of(v)) {
                    Some(o) => if o.kind is Wire {
                        own.push(LogicEvent::UpdateVoxel { position: output_of(v), new_state: ns })
                    } else {
                        own
                    },
                    None => own,
                }
            },
            None => prev,
        }
    }
}

/// One simulation step: every gate is simulated against the current world,
/// then every wire is settled against the current world. Returns the updates
/// in that order; nothing is applied yet.
pub fn logic_system(voxel_map: &VoxelMap) -> (r: Vec<LogicEvent>)
    requires
        voxel_map.wf(),
    ensures
        r@ == gate_events(voxel_map.voxel_map@, voxel_map.voxel_map@.len() as int) + propagation_events(
            voxel_map.voxel_map@,
            voxel_map.voxel_map@.len() as int,
        ),
{
    let ghost s = voxel_map.voxel_map@;
    let n = voxel_map.voxel_map.len();
    let mut events: Vec<LogicEvent> = Vec::new();
    let mut k: usize = 0;
    while k < n
        invariant
            voxel_map.wf(),
            s == voxel_map.voxel_map@,
            n == s.len(),
            k <= n,
            events@ == gate_events(s, k as int),
        decreases n - k,
    {
        let voxel = voxel_map.voxel_map[k];
        match simulate_gate(&voxel, voxel_map) {
            Some(new_state) => {
                events.push(LogicEvent::UpdateVoxel { position: voxel.position, new_state });
                let (_, output) = voxel_directions(&voxel);
                match voxel_map.get(output) {
                    Some(out_voxel) => {
                        if let VoxelType::Wire(_) = out_voxel.kind {
                            events.push(LogicEvent::UpdateVoxel { position: output, new_state });
                        }
                    },
                    None => {},
                }
            },
            None => {},
        }
        k = k + 1;
    }
    let mut wires = propagate_wires(voxel_map);
    events.append(&mut wires);
    events
}

/// `p` is not at either end of `i32` along the horizontal axes, so a step
/// along X or Z stays a plain sum.
pub open spec fn away_from_ends(p: IVec3) -> bool {
    &&& i32::MIN < p.x < i32::MAX
    &&& i32::MIN < p.z < i32::MAX
}

/// The cell one step from `p` toward compass direction `d`, numbered as the
/// camera's facing is: 1 is +Z, 2 is +X, 3 is -Z and 4 is -X.
pub open spec fn compass_step(p: IVec3, d: int) -> IVec3 {
    if d == 1 {
        IVec3 { x: p.x, y: p.y, z: (p.z + 1) as i32 }
    } else if d == 2 {
        IVec3 { x: (p.x + 1) as i32, y: p.y, z: p.z }
    } else if d == 3 {
        IVec3 { x: p.x, y: p.y, z: (p.z - 1) as i32 }
    } else {
        IVec3 { x: (p.x - 1) as i32, y: p.y, z: p.z }
    }
}

/// Where a voxel that faces compass direction `d` (1 to 4) drives and reads:
/// it drives the cell in front of it; a NOT or buffer gate reads the cell
/// behind it, and any other voxel reads the two cells at its sides, first the
/// one toward +X or +Z, then the one toward -X or -Z. A building block reads
/// nothing.
pub proof fn lemma_voxel_faces_its_direction(v: Voxel)
    requires
        1 <= v.direction <= 4,
        away_from_ends(v.position),
    ensures
        !is_structure(v.kind) ==> output_of(v) == compass_step(v.position, v.direction as int),
        is_structure(v.kind) ==> inputs_of(v).len() == 0,
        is_not_gate(v.kind) ==> inputs_of(v) == seq![
            compass_step(v.position, if v.direction <= 2 { v.direction + 2 } else { v.direction - 2 }),
        ],
        !is_structure(v.kind) && !is_not_gate(v.kind) && (v.direction == 1 || v.direction == 3)
            ==> inputs_of(v) == seq![compass_step(v.position, 2), compass_step(v.position, 4)],
        !is_structure(v.kind) && !is_not_gate(v.kind) && (v.direction == 2 || v.direction == 4)
            ==> inputs_of(v) == seq![compass_step(v.position, 1), compass_step(v.position, 3)],
{
    let p = v.position;
    assert(p.x.wrapping_add(0i32) == p.x && p.y.wrapping_add(0i32) == p.y && p.z.wrapping_add(0i32) == p.z);
    assert(p.x.wrapping_sub(0i32) == p.x && p.y.wrapping_sub(0i32) == p.y && p.z.wrapping_sub(0i32) == p.z);
    assert(p.x.wrapping_add(1i32) == p.x + 1 && p.z.wrapping_add(1i32) == p.z + 1);
    assert(p.x.wrapping_add(-1i32) == p.x - 1 && p.z.wrapping_add(-1i32) == p.z - 1);
    assert(p.x.wrapping_sub(1i32) == p.x - 1 && p.z.wrapping_sub(1i32) == p.z - 1);
    assert(p.x.wrapping_sub(-1i32) == p.x + 1 && p.z.wrapping_sub(-1i32) == p.z + 1);
}

/// The word a gate drives after its update: fully on or fully off.
pub open spec fn driven_word(on: bool) -> u16 {
    if on {
        0xffffu16
    } else {
        0u16
    }
}

/// A gate's update takes it to the word `on` asks for: it is that word when
/// it differs from the word held, and there is no update when it does not.
pub open spec fn updates_to(r: Option<Bits16>, v: Voxel, on: bool) -> bool {
    if driven_word(on) == v.state.word {
        r is None
    } else {
        r == Some(Bits16 { word: driven_word(on) })
    }
}

/// Each gate computes its truth table from the signals at the cells it reads,
/// numbered by compass direction (1: +Z, 2: +X, 3: -Z, 4: -X). A NOT or
/// buffer gate reads the cell behind it. Any other gate reads `a`, the side
/// cell toward +X (facing along Z) or +Z (facing along X), and `b`, the
/// opposite side cell; the D flip-flop takes `a` while `b` is on and keeps
/// its word otherwise. A voxel that is no gate is never updated.
pub proof fn lemma_gate_truth_table(s: Seq<Voxel>, v: Voxel)
    requires
        1 <= v.direction <= 4,
        away_from_ends(v.position),
    ensures
        ({
            let d = v.direction as int;
            let p = v.position;
            let behind = signal_at(s, compass_step(p, if d <= 2 { d + 2 } else { d - 2 }));
            let a = signal_at(s, compass_step(p, if d == 1 || d == 3 { 2 } else { 1 }));
            let b = signal_at(s, compass_step(p, if d == 1 || d == 3 { 4 } else { 3 }));
            let r = gate_update(s, v);
            &&& v.kind == VoxelType::Not(NotVariants::NotGate) ==> updates_to(r, v, !behind)
            &&& v.kind == VoxelType::Not(NotVariants::BufferGate) ==> updates_to(r, v, behind)
            &&& v.kind == VoxelType::And(AndVariants::AndGate) ==> updates_to(r, v, a && b)
            &&& v.kind == VoxelType::And(AndVariants::NandGate) ==> updates_to(r, v, !(a && b))
            &&& v.kind == VoxelType::Or(OrVariants::OrGate) ==> updates_to(r, v, a || b)
            &&& v.kind == VoxelType::Or(OrVariants::NorGate) ==> updates_to(r, v, !(a || b))
            &&& v.kind == VoxelType::Xor(XorVariants::XorGate) ==> updates_to(r, v, a != b)
            &&& v.kind == VoxelType::Xor(XorVariants::XnorGate) ==> updates_to(r, v, a == b)
            &&& v.kind == VoxelType::Latch(LatchVariants::DFlipFlop) ==> updates_to(
                r,
                v,
                if b { a } else { v.state.word != 0 },
            )
            &&& (v.kind is Structure || v.kind is Wire || v.kind is BundledWire || v.kind is Component
                || v.kind == VoxelType::Latch(LatchVariants::SRLatch)) ==> r is None
        }),
{
    lemma_voxel_faces_its_direction(v);
}

} // verus!

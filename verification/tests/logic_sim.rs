use bits_and_blocks::bits::Bits16;
use bits_and_blocks::logic::{
    carries, clamp_state, logic_event_handler, logic_system, simulate_gate, voxel_directions, LogicEvent,
};
use bits_and_blocks::voxel::{
    AndVariants, ComponentVariants, IVec3, LatchVariants, NotVariants, OrVariants, StructuralVariants, Voxel,
    VoxelType, XorVariants,
};
use bits_and_blocks::wires::propagate_wires;
use bits_and_blocks::world::{add_voxel, VoxelMap};

fn v(kind: VoxelType, x: i32, y: i32, z: i32, direction: usize, word: u16) -> Voxel {
    Voxel { kind, position: IVec3::new(x, y, z), direction, state: Bits16::new(word) }
}

fn world(voxels: &[Voxel]) -> VoxelMap {
    let mut map = VoxelMap::new(Vec::new());
    for (i, x) in voxels.iter().enumerate() {
        assert!(add_voxel(&mut map, *x, i as u64 + 100));
    }
    map
}

/// A gate facing +Z at the origin with switches on its sides (+X, -X) in the
/// given states; returns what that gate computes.
fn two_input(kind: VoxelType, a: bool, b: bool, current: u16) -> Option<u16> {
    let gate = v(kind, 0, 0, 0, 1, current);
    let sw = |on: bool, x: i32| v(VoxelType::Component(ComponentVariants::Switch), x, 0, 0, 1, if on { 0xffff } else { 0 });
    let map = world(&[gate, sw(a, 1), sw(b, -1)]);
    simulate_gate(&gate, &map).map(|w| w.value())
}

#[test]
fn gate_truth_tables() {
    let and = VoxelType::And(AndVariants::AndGate);
    let nand = VoxelType::And(AndVariants::NandGate);
    let or = VoxelType::Or(OrVariants::OrGate);
    let nor = VoxelType::Or(OrVariants::NorGate);
    let xor = VoxelType::Xor(XorVariants::XorGate);
    let xnor = VoxelType::Xor(XorVariants::XnorGate);
    for a in [false, true] {
        for b in [false, true] {
            let word = |on: bool| if on { 0xffffu16 } else { 0 };
            // Starting from the opposite word, every gate reports its output.
            let check = |kind: VoxelType, out: bool| {
                assert_eq!(two_input(kind, a, b, word(!out)), Some(word(out)), "{:?} {} {}", kind, a, b);
                assert_eq!(two_input(kind, a, b, word(out)), None);
            };
            check(and, a && b);
            check(nand, !(a && b));
            check(or, a || b);
            check(nor, !(a || b));
            check(xor, a != b);
            check(xnor, a == b);
        }
    }
}

#[test]
fn not_and_buffer_read_behind() {
    // Facing +Z, a NOT gate reads the cell at -Z.
    let not = v(VoxelType::Not(NotVariants::NotGate), 0, 0, 0, 1, 0);
    let sw = v(VoxelType::Component(ComponentVariants::Switch), 0, 0, -1, 1, 0);
    let map = world(&[not, sw]);
    assert_eq!(simulate_gate(&not, &map), Some(Bits16::new(0xffff)));
    let buf = v(VoxelType::Not(NotVariants::BufferGate), 0, 0, 0, 1, 0);
    let map = world(&[buf, sw]);
    assert_eq!(simulate_gate(&buf, &map), None);
    let (ins, out) = voxel_directions(&not);
    assert_eq!(ins, vec![IVec3::new(0, 0, -1)]);
    assert_eq!(out, IVec3::new(0, 0, 1));
}

#[test]
fn d_flip_flop_holds_without_clock() {
    let d = VoxelType::Latch(LatchVariants::DFlipFlop);
    // Clock (second input) off: keeps the current word.
    assert_eq!(two_input(d, true, false, 0), None);
    assert_eq!(two_input(d, false, false, 0xffff), None);
    // Clock on: takes the data input.
    assert_eq!(two_input(d, true, true, 0), Some(0xffff));
    assert_eq!(two_input(d, false, true, 0xffff), Some(0));
    // An SR latch and a brick compute nothing.
    assert_eq!(two_input(VoxelType::Latch(LatchVariants::SRLatch), true, true, 0), None);
    assert_eq!(two_input(VoxelType::Structure(StructuralVariants::BrownBrick), true, true, 0), None);
}

#[test]
fn directions_of_a_gate_and_a_brick() {
    let g = v(VoxelType::And(AndVariants::AndGate), 5, 0, 5, 2, 0);
    let (ins, out) = voxel_directions(&g);
    assert_eq!(ins, vec![IVec3::new(5, 0, 6), IVec3::new(5, 0, 4)]);
    assert_eq!(out, IVec3::new(6, 0, 5));
    let brick = v(VoxelType::Structure(StructuralVariants::RedTile), 5, 0, 5, 2, 0);
    let (ins, out) = voxel_directions(&brick);
    assert!(ins.is_empty());
    assert_eq!(out, IVec3::new(0, 0, 0));
}

#[test]
fn wire_words_are_clamped_to_their_channel() {
    assert_eq!(clamp_state(&VoxelType::Wire(3), Bits16::new(0xffff)).value(), 8);
    assert_eq!(clamp_state(&VoxelType::Wire(3), Bits16::new(0xfff7)).value(), 0);
    assert_eq!(clamp_state(&VoxelType::BundledWire, Bits16::new(0x1234)).value(), 0x1234);
    let w = v(VoxelType::Wire(4), 0, 0, 0, 0, 0);
    assert!(carries(&w, 4));
    assert!(!carries(&w, 5));
    assert!(carries(&v(VoxelType::BundledWire, 0, 0, 0, 0, 0), 9));
}

#[test]
fn switch_drives_a_wire_line_and_settles() {
    // A switch facing +Z drives the cell in front of it.
    let sw = v(VoxelType::Component(ComponentVariants::Switch), 0, 0, 0, 1, 0xffff);
    let w1 = v(VoxelType::Wire(0), 0, 0, 1, 0, 0);
    let w2 = v(VoxelType::Wire(0), 0, 0, 2, 0, 0);
    let other = v(VoxelType::Wire(1), 0, 0, 3, 0, 0);
    let mut map = world(&[sw, w1, w2, other]);
    let events = propagate_wires(&map);
    assert_eq!(
        events,
        vec![
            LogicEvent::UpdateVoxel { position: IVec3::new(0, 0, 1), new_state: Bits16::new(1) },
            LogicEvent::UpdateVoxel { position: IVec3::new(0, 0, 2), new_state: Bits16::new(1) },
        ]
    );
    assert_eq!(logic_system(&map), events);
    let changed = logic_event_handler(&mut map, &events);
    assert_eq!(changed.len(), 2);
    assert_eq!(changed[0].0, 101);
    assert_eq!(changed[0].1.state.value(), 1);
    // Once applied, propagating again asks for nothing.
    assert!(propagate_wires(&map).is_empty());
    // Turning the switch off clears the line.
    let off = vec![LogicEvent::UpdateVoxel { position: IVec3::new(0, 0, 0), new_state: Bits16::new(0) }];
    logic_event_handler(&mut map, &off);
    let events = propagate_wires(&map);
    assert_eq!(events.len(), 2);
    logic_event_handler(&mut map, &events);
    assert_eq!(map.get(IVec3::new(0, 0, 2)).unwrap().state.value(), 0);
}

#[test]
fn bundled_wire_carries_every_channel_driven() {
    let sw = v(VoxelType::Component(ComponentVariants::Switch), 0, 0, 0, 1, 0xffff);
    let b = v(VoxelType::BundledWire, 0, 0, 1, 0, 0);
    let map = world(&[sw, b]);
    let events = propagate_wires(&map);
    assert_eq!(events, vec![LogicEvent::UpdateVoxel { position: IVec3::new(0, 0, 1), new_state: Bits16::new(0xffff) }]);
}

#[test]
fn gate_updates_drive_the_wire_in_front() {
    // A NOT gate facing +Z with nothing behind turns on and updates the wire in front.
    let not = v(VoxelType::Not(NotVariants::NotGate), 0, 0, 0, 1, 0);
    let w = v(VoxelType::Wire(2), 0, 0, 1, 0, 0);
    let map = world(&[not, w]);
    let events = logic_system(&map);
    assert_eq!(events[0], LogicEvent::UpdateVoxel { position: IVec3::new(0, 0, 0), new_state: Bits16::new(0xffff) });
    assert_eq!(events[1], LogicEvent::UpdateVoxel { position: IVec3::new(0, 0, 1), new_state: Bits16::new(0xffff) });
    assert_eq!(events.len(), 2);
}

#[test]
fn logic_updates_skip_unknown_cells_and_equal_words() {
    let w = v(VoxelType::Wire(0), 0, 0, 0, 0, 1);
    let mut map = world(&[w]);
    let events = vec![
        LogicEvent::Skip,
        LogicEvent::UpdateVoxel { position: IVec3::new(9, 9, 9), new_state: Bits16::new(1) },
        LogicEvent::UpdateVoxel { position: IVec3::new(0, 0, 0), new_state: Bits16::new(1) },
    ];
    let changed = logic_event_handler(&mut map, &events);
    assert!(changed.is_empty());
    assert_eq!(map.voxel_map, vec![w]);
}

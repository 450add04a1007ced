use bits_and_blocks::bits::{bitword, Bits16};
use bits_and_blocks::cables::{cables_compatible, count_neighbors, update_meshes, update_voxel_cable_mesh};
use bits_and_blocks::voxel::{
    AndVariants, ComponentVariants, IVec3, NotVariants, StructuralVariants, Voxel, VoxelType,
    HOTBAR_SIZE, NUM_VOXELS, SUBSET_SIZES,
};
use bits_and_blocks::voxel::subset_size_of;
use bits_and_blocks::world::{
    add_voxel, create_voxel_map, get_neighboring_coords, remove_voxel, voxel_exists, VoxelAsset,
    VoxelDefinition, VoxelMap,
};

fn v(kind: VoxelType, x: i32, y: i32, z: i32, direction: usize, word: u16) -> Voxel {
    Voxel { kind, position: IVec3::new(x, y, z), direction, state: Bits16::new(word) }
}

fn defs() -> Vec<VoxelDefinition> {
    let mut out = Vec::new();
    for g in 0..9 {
        for s in 0..SUBSET_SIZES[g] {
            let kind = VoxelType::try_from((g, s)).unwrap();
            out.push(VoxelDefinition { voxel_id: kind, name: format!("kind {} {}", g, s) });
        }
    }
    out
}

#[test]
fn every_pair_round_trips() {
    let mut count = 0;
    for g in 0..9 {
        for s in 0..subset_size_of(g) {
            let kind = VoxelType::try_from((g, s)).unwrap();
            assert_eq!(kind.as_pair(), (g, s));
            assert_eq!(kind.group(), g);
            assert_eq!(kind.sub_group(), s);
            count += 1;
        }
    }
    assert_eq!(count, SUBSET_SIZES.iter().sum::<usize>());
    assert_eq!(count, 39);
    // The texture atlas has more rows than there are kinds.
    assert_eq!(NUM_VOXELS, 43);
}

#[test]
fn unknown_pairs_are_refused() {
    assert!(VoxelType::try_from((9, 0)).is_err());
    assert!(VoxelType::try_from((0, 8)).is_err());
    assert!(VoxelType::try_from((2, 16)).is_err());
    assert!(VoxelType::try_from((8, 4)).is_err());
    assert_eq!(VoxelType::try_from((2, 16)), Err("Unknown voxel_id"));
    assert_eq!(VoxelType::try_from((1, 1)), Err("Unknown voxel_id"));
    assert_eq!(VoxelType::try_from((9, 0)), Err("Unknown voxel_id"));
}

#[test]
fn pair_examples() {
    assert_eq!(VoxelType::try_from((0, 3)), Ok(VoxelType::Structure(StructuralVariants::StoneBrick)));
    assert_eq!(VoxelType::try_from((2, 5)), Ok(VoxelType::Wire(5)));
    assert_eq!(VoxelType::try_from((8, 0)), Ok(VoxelType::Component(ComponentVariants::Clock)));
    assert_eq!(VoxelType::Component(ComponentVariants::Light).as_pair(), (8, 3));
    assert_eq!(VoxelType::BundledWire.as_pair(), (1, 0));
}

#[test]
fn bits_set_get_clear() {
    let mut b = Bits16::all_zeros();
    assert!(b.is_all_zero());
    b.set(3);
    assert!(b.get(3));
    assert!(!b.get(2));
    assert_eq!(b.value(), 8);
    b.set(15);
    assert_eq!(b.value(), 0x8008);
    b.clear(3);
    assert_eq!(b.value(), 0x8000);
    assert!(b.any_set());
    assert_eq!(Bits16::all_ones().value(), 0xffff);
    assert_eq!(bitword(true).value(), 0xffff);
    assert_eq!(bitword(false).value(), 0);
}

#[test]
fn neighbouring_coords_in_order() {
    let n = get_neighboring_coords(IVec3::new(1, 2, 3));
    assert_eq!(n[0], IVec3::new(2, 2, 3));
    assert_eq!(n[1], IVec3::new(0, 2, 3));
    assert_eq!(n[2], IVec3::new(1, 3, 3));
    assert_eq!(n[3], IVec3::new(1, 1, 3));
    assert_eq!(n[4], IVec3::new(1, 2, 4));
    assert_eq!(n[5], IVec3::new(1, 2, 2));
}

#[test]
fn voxel_map_from_definitions() {
    let d = defs();
    let map = create_voxel_map(d);
    assert_eq!(map.asset_map.len(), 39);
    assert_eq!(map.voxel_map.len(), 0);
    for (i, a) in map.asset_map.iter().enumerate() {
        assert_eq!(a.texture_row, i);
    }
    assert_eq!(map.asset(VoxelType::Wire(0)).unwrap().texture_row, 9);
    assert_eq!(map.asset(VoxelType::Wire(16)).map(|a| a.texture_row), None);
}

#[test]
fn add_then_remove_restores_world() {
    let mut map = VoxelMap::new(Vec::new());
    let a = v(VoxelType::BundledWire, 0, 0, 0, 0, 0);
    assert!(add_voxel(&mut map, a, 10));
    assert!(voxel_exists(&map, IVec3::new(0, 0, 0)));
    let b = v(VoxelType::Wire(1), 1, 0, 0, 0, 0);
    assert!(add_voxel(&mut map, b, 11));
    // A second voxel at a taken position is refused.
    assert!(!add_voxel(&mut map, v(VoxelType::Wire(2), 1, 0, 0, 0, 0), 12));
    assert_eq!(map.voxel_map.len(), 2);
    assert_eq!(map.get(IVec3::new(1, 0, 0)), Some(b));
    assert_eq!(remove_voxel(&mut map, IVec3::new(1, 0, 0)), Some(11));
    assert_eq!(map.voxel_map, vec![a]);
    assert_eq!(map.entity_map, vec![10]);
    assert_eq!(remove_voxel(&mut map, IVec3::new(5, 5, 5)), None);
    assert!(!voxel_exists(&map, IVec3::new(1, 0, 0)));
}

#[test]
fn cable_compatibility() {
    assert!(cables_compatible(&VoxelType::Wire(3), &VoxelType::Wire(3)));
    assert!(!cables_compatible(&VoxelType::Wire(3), &VoxelType::Wire(4)));
    assert!(cables_compatible(&VoxelType::Wire(3), &VoxelType::BundledWire));
    assert!(cables_compatible(&VoxelType::BundledWire, &VoxelType::BundledWire));
    assert!(!cables_compatible(&VoxelType::BundledWire, &VoxelType::And(AndVariants::AndGate)));
}

#[test]
fn neighbour_flags_of_a_cable() {
    let mut map = VoxelMap::new(Vec::new());
    let centre = v(VoxelType::Wire(0), 5, 5, 5, 0, 0);
    add_voxel(&mut map, centre, 1);
    add_voxel(&mut map, v(VoxelType::Wire(0), 6, 5, 5, 0, 0), 2); // +X, same channel
    add_voxel(&mut map, v(VoxelType::Wire(1), 4, 5, 5, 0, 0), 3); // -X, other channel
    add_voxel(&mut map, v(VoxelType::BundledWire, 5, 6, 5, 0, 0), 4); // +Y, bundled
    // A NOT gate facing +Z whose input cell is the centre: it stands at +Z.
    add_voxel(&mut map, v(VoxelType::Not(NotVariants::NotGate), 5, 5, 6, 1, 0), 5);
    // A brick below does not connect.
    add_voxel(&mut map, v(VoxelType::Structure(StructuralVariants::RedBrick), 5, 4, 5, 0, 0), 6);
    let flags = count_neighbors(centre, &map);
    assert_eq!(flags, [true, false, true, false, true, false]);
    let redraw = update_meshes(get_neighboring_coords(IVec3::new(5, 5, 5)), &map);
    let entities: Vec<u64> = redraw.iter().map(|(e, _)| *e).collect();
    assert_eq!(entities, vec![2, 3, 4]);
}

#[test]
fn a_brick_drives_the_origin() {
    // Building blocks report the origin as their output cell, so a brick next
    // to a cable at the origin shows as linked to it.
    let mut map = VoxelMap::new(Vec::new());
    let centre = v(VoxelType::Wire(0), 0, 0, 0, 0, 0);
    add_voxel(&mut map, centre, 1);
    add_voxel(&mut map, v(VoxelType::Structure(StructuralVariants::RedBrick), 0, -1, 0, 0, 0), 2);
    assert_eq!(count_neighbors(centre, &map), [false, false, false, true, false, false]);
}

#[test]
fn cable_mesh_data_uses_the_kind_row() {
    let mut map = create_voxel_map(defs());
    let w = v(VoxelType::Wire(0), 0, 0, 0, 0, 0);
    add_voxel(&mut map, w, 1);
    add_voxel(&mut map, v(VoxelType::Wire(0), 0, 0, -1, 0, 0), 2);
    assert_eq!(update_voxel_cable_mesh(&w, &map), (9, [false, false, false, false, false, true]));
    let _ = VoxelAsset { definition: VoxelDefinition { voxel_id: VoxelType::BundledWire, name: String::new() }, texture_row: 0 };
    assert_eq!(HOTBAR_SIZE, 9);
}

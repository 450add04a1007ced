use bits_and_blocks::bits::Bits16;
use bits_and_blocks::mesh::{
    create_cable_mesh, create_voxel_mesh, get_voxel_rotation_factor, glow_of, AtlasCorner, Glow, MeshData,
    BLOCK_HALF,
};
use bits_and_blocks::saves::{is_filename_char, sanitize_filename, save_path, saved_names, saved_world_name, SavedWorld};
use bits_and_blocks::text::decimal_string;
use bits_and_blocks::voxel::{AndVariants, ComponentVariants, IVec3, StructuralVariants, Voxel, VoxelType};

fn max_extent(m: &MeshData, axis: usize) -> (i32, i32) {
    let vals: Vec<i32> = m.positions.iter().map(|p| [p.x, p.y, p.z][axis]).collect();
    (*vals.iter().min().unwrap(), *vals.iter().max().unwrap())
}

fn well_formed(m: &MeshData) {
    assert_eq!(m.positions.len(), m.uvs.len());
    assert_eq!(m.positions.len(), m.normals.len());
    assert_eq!(m.indices.len() % 3, 0);
    for &i in &m.indices {
        assert!((i as usize) < m.positions.len());
    }
}

#[test]
fn block_mesh_is_a_unit_cube() {
    let m = create_voxel_mesh(7);
    well_formed(&m);
    assert_eq!(m.positions.len(), 24);
    assert_eq!(m.indices.len(), 36);
    for p in &m.positions {
        assert_eq!(p.x.abs(), BLOCK_HALF);
        assert_eq!(p.y.abs(), BLOCK_HALF);
        assert_eq!(p.z.abs(), BLOCK_HALF);
    }
    // Top face first, looking up, texture column 0 of row 7.
    assert_eq!(m.normals[0], IVec3::new(0, 1, 0));
    assert_eq!(m.positions[0], IVec3::new(-20, 20, -20));
    assert_eq!(m.positions[1], IVec3::new(20, 20, -20));
    assert_eq!(m.uvs[0], AtlasCorner { column: 0, row: 8 });
    assert_eq!(m.uvs[1], AtlasCorner { column: 0, row: 7 });
    assert_eq!(&m.indices[0..6], &[0, 3, 1, 1, 3, 2]);
    assert_eq!(&m.indices[6..12], &[4, 5, 7, 5, 6, 7]);
    // Last face looks to -Z and takes column 5.
    assert_eq!(m.normals[23], IVec3::new(0, 0, -1));
    assert_eq!(m.uvs[20], AtlasCorner { column: 6, row: 8 });
}

#[test]
fn lone_cable_is_a_large_core() {
    let m = create_cable_mesh(3, [false; 6]);
    well_formed(&m);
    assert_eq!(m.positions.len(), 24);
    assert_eq!(max_extent(&m, 0), (-10, 10));
    assert_eq!(m.uvs[0], AtlasCorner { column: 0, row: 4 });
}

#[test]
fn cable_with_one_link_keeps_the_large_core() {
    let m = create_cable_mesh(0, [true, false, false, false, false, false]);
    well_formed(&m);
    assert_eq!(m.positions.len(), 48);
    assert_eq!(m.indices.len(), 72);
    // The arm for the +X neighbour is drawn towards -X in mesh space.
    assert_eq!(max_extent(&m, 0), (-20, 10));
    assert_eq!(max_extent(&m, 1), (-10, 10));
    assert_eq!(&m.indices[36..42], &[24, 25, 26, 24, 26, 27]);
}

#[test]
fn cable_with_links_has_a_thin_core_and_arms_to_the_faces() {
    let m = create_cable_mesh(0, [false, false, true, true, false, true]);
    well_formed(&m);
    assert_eq!(m.positions.len(), 24 * 4);
    assert_eq!(max_extent(&m, 0), (-6, 6));
    assert_eq!(max_extent(&m, 1), (-20, 20));
    assert_eq!(max_extent(&m, 2), (-6, 20));
    let all = create_cable_mesh(0, [true; 6]);
    well_formed(&all);
    assert_eq!(all.positions.len(), 24 * 7);
    for axis in 0..3 {
        assert_eq!(max_extent(&all, axis), (-20, 20));
    }
}

#[test]
fn rotation_and_glow() {
    let v = |kind: VoxelType, word: u16| Voxel { kind, position: IVec3::new(0, 0, 0), direction: 2, state: Bits16::new(word) };
    assert_eq!(get_voxel_rotation_factor(&v(VoxelType::Wire(1), 0)), 0);
    assert_eq!(get_voxel_rotation_factor(&v(VoxelType::Structure(StructuralVariants::BlueTile), 0)), 0);
    assert_eq!(get_voxel_rotation_factor(&v(VoxelType::And(AndVariants::AndGate), 0)), 1);
    assert_eq!(glow_of(&v(VoxelType::Component(ComponentVariants::Light), 1)), Glow::Bright);
    assert_eq!(glow_of(&v(VoxelType::Wire(0), 1)), Glow::Dim);
    assert_eq!(glow_of(&v(VoxelType::Component(ComponentVariants::Light), 0)), Glow::Off);
}

#[test]
fn file_names_are_sanitized() {
    assert_eq!(sanitize_filename("my<world>:1"), "myworld1");
    assert_eq!(sanitize_filename("a/b\\c|d?e*f\"g"), "abcdefg");
    assert_eq!(sanitize_filename("tab\there\n"), "tabhere");
    assert_eq!(sanitize_filename("\u{85}ok\u{7f}"), "ok");
    assert_eq!(sanitize_filename("Ünïcode wörld"), "Ünïcode wörld");
    assert_eq!(sanitize_filename(&sanitize_filename("x<y")), "xy");
    assert!(is_filename_char('a'));
    assert!(!is_filename_char('\u{9f}'));
    assert!(is_filename_char('\u{a0}'));
}

#[test]
fn save_paths_and_names() {
    assert_eq!(save_path("alpha"), "assets/saves/alpha.bin");
    assert_eq!(saved_world_name("alpha.bin"), Some("alpha".to_string()));
    assert_eq!(saved_world_name("a.b.bin"), Some("a.b".to_string()));
    assert_eq!(saved_world_name(".bin"), None);
    assert_eq!(saved_world_name("alpha.json"), None);
    assert_eq!(saved_world_name("bin"), None);
    let files = vec!["one.bin".to_string(), "notes.txt".to_string(), "two.bin".to_string()];
    assert_eq!(saved_names(&files), vec!["one".to_string(), "two".to_string()]);
    let w = SavedWorld::new();
    assert!(w.world_name.is_empty() && w.voxels.is_empty());
}

#[test]
fn decimal_writing() {
    assert_eq!(decimal_string(0), "0");
    assert_eq!(decimal_string(7), "7");
    assert_eq!(decimal_string(256), "256");
    assert_eq!(decimal_string(1_000_000), "1000000");
}

use vstd::prelude::*;

use crate::logic::{
    away_from_ends, carries_spec, compass_step, is_cable, is_not_gate, is_structure, inputs_of, output_of, voxel_directions,
    lemma_voxel_faces_its_direction,
};
use crate::voxel::{IVec3, Voxel, VoxelType};
use crate::world::{
    VoxelMap, voxel_at, neighbor, get_neighboring_coords, asset_for, has_voxel, index_of,
    lemma_index_of_unique,
};

verus! {

/// Whether two cable kinds join: wires of the same channel, or a wire and a
/// bundled wire, or two bundled wires.
pub open spec fn compatible(a: VoxelType, b: VoxelType) -> bool {
    match (a, b) {
        (VoxelType::Wire(c1), VoxelType::Wire(c2)) => c1 == c2,
        (VoxelType::Wire(_), VoxelType::BundledWire) => true,
        (VoxelType::BundledWire, VoxelType::Wire(_)) => true,
        (VoxelType::BundledWire, VoxelType::BundledWire) => true,
        _ => false,
    }
}

/// Whether two cable kinds join.
pub fn cables_compatible(a: &VoxelType, b: &VoxelType) -> (r: bool)
    ensures
        r == compatible(*a, *b),
{
    match (a, b) {
        (VoxelType::Wire(ch1), VoxelType::Wire(ch2)) => *ch1 == *ch2,
        (VoxelType::Wire(_), VoxelType::BundledWire) => true,
        (VoxelType::BundledWire, VoxelType::Wire(_)) => true,
        (VoxelType::BundledWire, VoxelType::BundledWire) => true,
        _ => false,
    }
}

/// Whether cable compatibility is the same read either way.
pub proof fn lemma_compatible_symmetric(a: VoxelType, b: VoxelType)
    ensures
        compatible(a, b) == compatible(b, a),
{
}

/// Whether `v` shows a connection towards its neighbour `n`: two cables join
/// when compatible; otherwise when `v` stands at one of `n`'s inputs or at its
/// output.
pub open spec fn connects(v: Voxel, n: Voxel) -> bool {
    if is_cable(v.kind) && is_cable(n.kind) {
        compatible(v.kind, n.kind)
    } else {
        inputs_of(n).contains(v.position) || output_of(n) == v.position
    }
}

/// Between two cables, a connection shows on both sides or on neither.
pub proof fn lemma_cable_connection_symmetric(a: Voxel, b: Voxel)
    requires
        is_cable(a.kind),
        is_cable(b.kind),
    ensures
        connects(a, b) == connects(b, a),
{
}

/// The connection flags of `v` in world `s`, in the order +X, -X, +Y, -Y, +Z, -Z.
pub open spec fn neighbor_flag(s: Seq<Voxel>, v: Voxel, d: int) -> bool {
    match voxel_at(s, neighbor(v.position, d)) {
        Some(n) => connects(v, n),
        None => false,
    }
}

/// For each of the six neighbour cells of `voxel` ([+X, −X, +Y, −Y, +Z, −Z]),
/// whether the voxel there connects to it.
pub fn count_neighbors(voxel: Voxel, voxel_map: &VoxelMap) -> (r: [bool; 6])
    requires
        voxel_map.wf(),
    ensures
        forall|d: int| 0 <= d < 6 ==> #[trigger] r@[d] == neighbor_flag(voxel_map.voxel_map@, voxel, d),
{
    let mut neighbors = [false; 6];
    let coords = get_neighboring_coords(voxel.position);
    let mut i: usize = 0;
    while i < 6
        invariant
            voxel_map.wf(),
            i <= 6,
            forall|e: int| 0 <= e < 6 ==> #[trigger] coords@[e] == neighbor(voxel.position, e),
            forall|d: int| 0 <= d < 6 ==> #[trigger] neighbors@[d] == (d < i && neighbor_flag(
                voxel_map.voxel_map@,
                voxel,
                d,
            )),
        decreases 6 - i,
    {
        let pos = coords[i];
        match voxel_map.get(pos) {
            Some(neigh_voxel) => {
                let self_cable = match voxel.kind {
                    VoxelType::Wire(_) => true,
                    VoxelType::BundledWire => true,
                    _ => false,
                };
                let neigh_cable = match neigh_voxel.kind {
                    VoxelType::Wire(_) => true,
                    VoxelType::BundledWire => true,
                    _ => false,
                };
                if self_cable && neigh_cable {
                    if cables_compatible(&voxel.kind, &neigh_voxel.kind) {
                        neighbors[i] = true;
                    }
                } else {
                    let (inputs, output) = voxel_directions(&neigh_voxel);
                    let mut found = false;
                    let mut k: usize = 0;
                    while k < inputs.len()
                        invariant
                            k <= inputs@.len(),
                            found == exists|m: int| 0 <= m < k && inputs@[m] == voxel.position,
                        decreases inputs@.len() - k,
                    {
                        if inputs[k] == voxel.position {
                            found = true;
                        }
                        k = k + 1;
                    }
                    if found || output == voxel.position {
                        neighbors[i] = true;
                    }
                    proof {
                        if inputs@.contains(voxel.position) {
                            let m = choose|m: int| 0 <= m < inputs@.len() && inputs@[m] == voxel.position;
                        }
                    }
                }
            },
            None => {},
        }
        i = i + 1;
    }
    neighbors
}

/// For the cells `ps`, in order, the entity and the voxel of each cable that
/// stands there: the cables whose shape must be redrawn.
pub open spec fn cable_targets(s: Seq<Voxel>, ents: Seq<u64>, ps: Seq<IVec3>) -> Seq<(u64, Voxel)>
    decreases ps.len(),
{
    if ps.len() == 0 {
        Seq::empty()
    } else {
        let rest = cable_targets(s, ents, ps.drop_last());
        let p = ps.last();
        match voxel_at(s, p) {
            Some(v) => if is_cable(v.kind) {
                rest.push((ents[index_of(s, p)], v))
            } else {
                rest
            },
            None => rest,
        }
    }
}

/// The entity and voxel of each cable standing at one of `positions`, in the
/// order of the positions.
pub fn cables_at(positions: &Vec<IVec3>, voxel_map: &VoxelMap) -> (r: Vec<(u64, Voxel)>)
    requires
        voxel_map.wf(),
    ensures
        r@ == cable_targets(voxel_map.voxel_map@, voxel_map.entity_map@, positions@),
{
    let ghost s = voxel_map.voxel_map@;
    let ghost ents = voxel_map.entity_map@;
    let mut out: Vec<(u64, Voxel)> = Vec::new();
    let mut d: usize = 0;
    while d < positions.len()
        invariant
            voxel_map.wf(),
            s == voxel_map.voxel_map@,
            ents == voxel_map.entity_map@,
            d <= positions@.len(),
            out@ == cable_targets(s, ents, positions@.take(d as int)),
        decreases positions@.len() - d,
    {
        let pos = positions[d];
        assert(positions@.take(d + 1).drop_last() =~= positions@.take(d as int));
        assert(positions@.take(d + 1).last() == pos);
        match voxel_map.find(pos) {
            Some(i) => {
                let v = voxel_map.voxel_map[i];
                proof {
                    lemma_index_of_unique(s, i as int);
                }
                let cable = match v.kind {
                    VoxelType::Wire(_) => true,
                    VoxelType::BundledWire => true,
                    _ => false,
                };
                if cable {
                    out.push((voxel_map.entity_map[i], v));
                }
            },
            None => {},
        }
        d = d + 1;
    }
    assert(positions@.take(positions@.len() as int) =~= positions@);
    out
}

/// For the six given cells, the entity and voxel of every cable standing
/// there, in the order of the cells: the cables whose shape must be redrawn.
pub fn update_meshes(voxel_positions: [IVec3; 6], voxel_map: &VoxelMap) -> (r: Vec<(u64, Voxel)>)
    requires
        voxel_map.wf(),
    ensures
        r@ == cable_targets(voxel_map.voxel_map@, voxel_map.entity_map@, voxel_positions@),
{
    let mut ps: Vec<IVec3> = Vec::new();
    let mut d: usize = 0;
    while d < 6
        invariant
            d <= 6,
            ps@ == voxel_positions@.take(d as int),
        decreases 6 - d,
    {
        ps.push(voxel_positions[d]);
        assert(voxel_positions@.take(d + 1) =~= voxel_positions@.take(d as int).push(voxel_positions@[d as int]));
        d = d + 1;
    }
    assert(voxel_positions@.take(6) =~= voxel_positions@);
    cables_at(&ps, voxel_map)
}

/// The texture row and the connection flags a cable is drawn with; drawing
/// data must be recorded for its kind.
pub fn update_voxel_cable_mesh(voxel: &Voxel, voxel_map: &VoxelMap) -> (r: (usize, [bool; 6]))
    requires
        voxel_map.wf(),
        asset_for(voxel_map.asset_map@, voxel.kind) is Some,
    ensures
        asset_for(voxel_map.asset_map@, voxel.kind) matches Some(a) && a.texture_row == r.0,
        forall|d: int| 0 <= d < 6 ==> #[trigger] r.1@[d] == neighbor_flag(voxel_map.voxel_map@, *voxel, d),
{
    let connections = count_neighbors(*voxel, voxel_map);
    let row = match voxel_map.asset(voxel.kind) {
        Some(a) => a.texture_row,
        None => 0,
    };
    (row, connections)
}

/// Beside a neighbour that is not a cable (or when `v` itself is none), `v`
/// links to it exactly when it stands at a cell the neighbour reads, in any
/// input slot, or at the cell it drives.
pub proof fn lemma_links_where_neighbour_reads_or_drives(v: Voxel, n: Voxel)
    requires
        !(is_cable(v.kind) && is_cable(n.kind)),
    ensures
        connects(v, n) == ((exists|k: int| 0 <= k < inputs_of(n).len() && #[trigger] inputs_of(n)[k] == v.position)
            || output_of(n) == v.position),
        forall|k: int| 0 <= k < inputs_of(n).len() && #[trigger] inputs_of(n)[k] == v.position ==> connects(v, n),
        output_of(n) == v.position ==> connects(v, n),
{
    if inputs_of(n).contains(v.position) {
        let k = choose|k: int| 0 <= k < inputs_of(n).len() && inputs_of(n)[k] == v.position;
        assert(inputs_of(n)[k] == v.position);
    }
    assert forall|k: int| 0 <= k < inputs_of(n).len() && #[trigger] inputs_of(n)[k] == v.position implies connects(v, n) by {
        assert(inputs_of(n).contains(v.position));
    }
}

/// A cable next to a gate or a component `n` (facing compass direction 1 to
/// 4: +Z, +X, -Z, -X) links to it when it stands in front of `n`; when `n`
/// is a NOT or buffer gate, also behind it; otherwise also at either side.
pub proof fn lemma_cable_links_to_gate_sides(v: Voxel, n: Voxel)
    requires
        is_cable(v.kind),
        !is_cable(n.kind),
        !is_structure(n.kind),
        1 <= n.direction <= 4,
        away_from_ends(n.position),
    ensures
        ({
            let d = n.direction as int;
            let p = n.position;
            &&& v.position == compass_step(p, d) ==> connects(v, n)
            &&& is_not_gate(n.kind) && v.position == compass_step(p, if d <= 2 { d + 2 } else { d - 2 })
                ==> connects(v, n)
            &&& !is_not_gate(n.kind) && (d == 1 || d == 3) && (v.position == compass_step(p, 2)
                || v.position == compass_step(p, 4)) ==> connects(v, n)
            &&& !is_not_gate(n.kind) && (d == 2 || d == 4) && (v.position == compass_step(p, 1)
                || v.position == compass_step(p, 3)) ==> connects(v, n)
        }),
{
    lemma_voxel_faces_its_direction(n);
    lemma_links_where_neighbour_reads_or_drives(v, n);
    let ins = inputs_of(n);
    if ins.len() > 0 {
        assert(ins[0] == v.position ==> connects(v, n));
    }
    if ins.len() > 1 {
        assert(ins[1] == v.position ==> connects(v, n));
    }
}

/// Two cables join exactly when some channel is carried by both: wires of
/// one channel join each other, and a bundled wire joins every cable.
pub proof fn lemma_cables_join_on_a_shared_channel(v: Voxel, n: Voxel)
    requires
        is_cable(v.kind),
        is_cable(n.kind),
    ensures
        connects(v, n) == (exists|ch: u8| carries_spec(v.kind, ch) && #[trigger] carries_spec(n.kind, ch)),
{
    match (v.kind, n.kind) {
        (VoxelType::Wire(a), VoxelType::Wire(b)) => {
            assert(carries_spec(v.kind, a));
            if a == b {
                assert(carries_spec(n.kind, a));
            }
        },
        (VoxelType::Wire(a), _) => {
            assert(carries_spec(v.kind, a) && carries_spec(n.kind, a));
        },
        (_, VoxelType::Wire(b)) => {
            assert(carries_spec(v.kind, b) && carries_spec(n.kind, b));
        },
        _ => {
            assert(carries_spec(v.kind, 0) && carries_spec(n.kind, 0));
        },
    }
}

} // verus!

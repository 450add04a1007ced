use vstd::prelude::*;

use crate::voxel::{IVec3, Voxel, VoxelType, vplus};

verus! {

/// The unit step in direction `d`, in the order +X, -X, +Y, -Y, +Z, -Z.
pub open spec fn unit_dir(d: int) -> IVec3 {
    if d == 0 {
        IVec3 { x: 1, y: 0, z: 0 }
    } else if d == 1 {
        IVec3 { x: -1i32, y: 0, z: 0 }
    } else if d == 2 {
        IVec3 { x: 0, y: 1, z: 0 }
    } else if d == 3 {
        IVec3 { x: 0, y: -1i32, z: 0 }
    } else if d == 4 {
        IVec3 { x: 0, y: 0, z: 1 }
    } else {
        IVec3 { x: 0, y: 0, z: -1i32 }
    }
}

/// The neighbour of `p` in direction `d` (0 to 5).
pub open spec fn neighbor(p: IVec3, d: int) -> IVec3 {
    vplus(p, unit_dir(d))
}

/// The direction opposite to `d`.
pub open spec fn opposite(d: int) -> int {
    if d % 2 == 0 {
        d + 1
    } else {
        d - 1
    }
}

/// Whether `b` is one of the six face neighbours of `a`.
pub open spec fn adjacent(a: IVec3, b: IVec3) -> bool {
    exists|d: int| 0 <= d < 6 && #[trigger] neighbor(a, d) == b
}

/// Stepping in a direction and then in the opposite one comes back.
pub proof fn lemma_neighbor_opposite(p: IVec3, d: int)
    requires
        0 <= d < 6,
    ensures
        0 <= opposite(d) < 6,
        neighbor(neighbor(p, d), opposite(d)) == p,
{
}

/// Being face neighbours is symmetric.
pub proof fn lemma_adjacent_symmetric(a: IVec3, b: IVec3)
    requires
        adjacent(a, b),
    ensures
        adjacent(b, a),
{
    let d = choose|d: int| 0 <= d < 6 && #[trigger] neighbor(a, d) == b;
    lemma_neighbor_opposite(a, d);
    assert(neighbor(b, opposite(d)) == a);
}

/// The six face neighbours of `coord`, in the order +X, -X, +Y, -Y, +Z, -Z.
pub fn get_neighboring_coords(coord: IVec3) -> (r: [IVec3; 6])
    ensures
        forall|d: int| 0 <= d < 6 ==> #[trigger] r@[d] == neighbor(coord, d),
{
    let r = [
        coord.plus(IVec3::new(1, 0, 0)),
        coord.plus(IVec3::new(-1, 0, 0)),
        coord.plus(IVec3::new(0, 1, 0)),
        coord.plus(IVec3::new(0, -1, 0)),
        coord.plus(IVec3::new(0, 0, 1)),
        coord.plus(IVec3::new(0, 0, -1)),
    ];
    assert forall|d: int| 0 <= d < 6 implies #[trigger] r@[d] == neighbor(coord, d) by {
        if d == 0 {
        } else if d == 1 {
        } else if d == 2 {
        } else if d == 3 {
        } else if d == 4 {
        } else {
        }
    }
    r
}

/// What a voxel kind is called and which texture row draws it.
#[derive(Clone, Debug)]
pub struct VoxelDefinition {
    pub voxel_id: VoxelType,
    pub name: String,
}

/// The drawing data the world keeps for a voxel kind: its definition and the
/// texture row (its index in the definition list).
#[derive(Clone, Debug)]
pub struct VoxelAsset {
    pub definition: VoxelDefinition,
    pub texture_row: usize,
}

/// The voxel world: the placed voxels, the scene entity that shows each of
/// them (`entity_map[i]` shows `voxel_map[i]`), and the drawing data of each
/// voxel kind.
pub struct VoxelMap {
    pub entity_map: Vec<u64>,
    pub voxel_map: Vec<Voxel>,
    pub asset_map: Vec<VoxelAsset>,
}

/// No two voxels of `s` stand at the same position.
pub open spec fn positions_distinct(s: Seq<Voxel>) -> bool {
    forall|i: int, j: int|
        0 <= i < s.len() && 0 <= j < s.len() && i != j ==> s[i].position != s[j].position
}

/// Some voxel of `s` stands at `p`.
pub open spec fn has_voxel(s: Seq<Voxel>, p: IVec3) -> bool {
    exists|i: int| 0 <= i < s.len() && #[trigger] s[i].position == p
}

/// The index of the voxel of `s` at `p` (meaningful when [`has_voxel`]).
pub open spec fn index_of(s: Seq<Voxel>, p: IVec3) -> int {
    choose|i: int| 0 <= i < s.len() && #[trigger] s[i].position == p
}

/// The voxel of `s` at `p`, if any.
pub open spec fn voxel_at(s: Seq<Voxel>, p: IVec3) -> Option<Voxel> {
    if has_voxel(s, p) {
        Some(s[index_of(s, p)])
    } else {
        None
    }
}

/// In a map without repeated positions, the voxel at index `i` is the one at
/// its own position.
pub proof fn lemma_index_of_unique(s: Seq<Voxel>, i: int)
    requires
        positions_distinct(s),
        0 <= i < s.len(),
    ensures
        has_voxel(s, s[i].position),
        index_of(s, s[i].position) == i,
        voxel_at(s, s[i].position) == Some(s[i]),
{
    assert(has_voxel(s, s[i].position));
}

/// The drawing data recorded for kind `k` in `a`: the last entry for `k`.
pub open spec fn asset_for(a: Seq<VoxelAsset>, k: VoxelType) -> Option<VoxelAsset>
    decreases a.len(),
{
    if a.len() == 0 {
        None
    } else if a.last().definition.voxel_id == k {
        Some(a.last())
    } else {
        asset_for(a.drop_last(), k)
    }
}

impl VoxelMap {
    /// The map is well formed: one entity per voxel and no two voxels at one
    /// position.
    pub open spec fn wf(&self) -> bool {
        &&& self.entity_map.len() == self.voxel_map.len()
        &&& positions_distinct(self.voxel_map@)
    }

    /// An empty world with the given drawing data.
    pub fn new(asset_map: Vec<VoxelAsset>) -> (r: VoxelMap)
        ensures
            r.wf(),
            r.voxel_map@.len() == 0,
            r.asset_map@ == asset_map@,
    {
        VoxelMap { entity_map: Vec::new(), voxel_map: Vec::new(), asset_map }
    }

    /// The index of the voxel at `position`, if one stands there.
    pub fn find(&self, position: IVec3) -> (r: Option<usize>)
        requires
            self.wf(),
        ensures
            match r {
                Some(i) => i < self.voxel_map@.len() && self.voxel_map@[i as int].position == position
                    && index_of(self.voxel_map@, position) == i,
                None => !has_voxel(self.voxel_map@, position),
            },
    {
        let n = self.voxel_map.len();
        let mut i: usize = 0;
        while i < n
            invariant
                self.wf(),
                n == self.voxel_map@.len(),
                i <= n,
                forall|j: int| 0 <= j < i ==> self.voxel_map@[j].position != position,
            decreases n - i,
        {
            if self.voxel_map[i].position == position {
                proof {
                    lemma_index_of_unique(self.voxel_map@, i as int);
                }
                return Some(i);
            }
            i = i + 1;
        }
        None
    }

    /// The voxel at `position`, if one stands there.
    pub fn get(&self, position: IVec3) -> (r: Option<Voxel>)
        requires
            self.wf(),
        ensures
            r == voxel_at(self.voxel_map@, position),
    {
        match self.find(position) {
            Some(i) => Some(self.voxel_map[i]),
            None => None,
        }
    }

    /// The drawing data recorded for kind `k`.
    pub fn asset(&self, k: VoxelType) -> (r: Option<&VoxelAsset>)
        ensures
            match r {
                Some(a) => asset_for(self.asset_map@, k) == Some(*a),
                None => asset_for(self.asset_map@, k) is None,
            },
    {
        let mut i = self.asset_map.len();
        assert(self.asset_map@.subrange(0, i as int) =~= self.asset_map@);
        while i > 0
            invariant
                i <= self.asset_map@.len(),
                asset_for(self.asset_map@, k) == asset_for(self.asset_map@.subrange(0, i as int), k),
            decreases i,
        {
            let a = &self.asset_map[i - 1];
            assert(self.asset_map@.subrange(0, i as int).drop_last() =~= self.asset_map@.subrange(
                0,
                i - 1,
            ));
            if a.definition.voxel_id == k {
                return Some(a);
            }
            i = i - 1;
        }
        None
    }
}

/// Returns true if a voxel already exists at the given position.
pub fn voxel_exists(voxel_map: &VoxelMap, position: IVec3) -> (r: bool)
    requires
        voxel_map.wf(),
    ensures
        r == has_voxel(voxel_map.voxel_map@, position),
{
    voxel_map.find(position).is_some()
}

/// Records `voxel`, shown by `entity`, unless a voxel already stands at its
/// position; in that case the map is left as it was. Returns whether the voxel
/// was added.
pub fn add_voxel(voxel_map: &mut VoxelMap, voxel: Voxel, entity: u64) -> (added: bool)
    requires
        old(voxel_map).wf(),
    ensures
        final(voxel_map).wf(),
        added == !has_voxel(old(voxel_map).voxel_map@, voxel.position),
        added ==> final(voxel_map).voxel_map@ == old(voxel_map).voxel_map@.push(voxel)
            && final(voxel_map).entity_map@ == old(voxel_map).entity_map@.push(entity),
        !added ==> final(voxel_map).voxel_map@ == old(voxel_map).voxel_map@
            && final(voxel_map).entity_map@ == old(voxel_map).entity_map@,
        final(voxel_map).asset_map@ == old(voxel_map).asset_map@,
{
    if voxel_exists(voxel_map, voxel.position) {
        return false;
    }
    voxel_map.entity_map.push(entity);
    voxel_map.voxel_map.push(voxel);
    proof {
        let s = voxel_map.voxel_map@;
        assert forall|i: int, j: int|
            0 <= i < s.len() && 0 <= j < s.len() && i != j implies s[i].position
            != s[j].position by {
            if i == s.len() - 1 {
                assert(old(voxel_map).voxel_map@[j].position == s[j].position);
            } else if j == s.len() - 1 {
                assert(old(voxel_map).voxel_map@[i].position == s[i].position);
            }
        }
    }
    true
}

/// Removes the voxel at `position`, if any, and returns the entity that
/// showed it.
pub fn remove_voxel(voxel_map: &mut VoxelMap, position: IVec3) -> (r: Option<u64>)
    requires
        old(voxel_map).wf(),
    ensures
        final(voxel_map).wf(),
        final(voxel_map).asset_map@ == old(voxel_map).asset_map@,
        r is Some == has_voxel(old(voxel_map).voxel_map@, position),
        match r {
            Some(e) => {
                let i = index_of(old(voxel_map).voxel_map@, position);
                &&& e == old(voxel_map).entity_map@[i]
                &&& final(voxel_map).voxel_map@ == old(voxel_map).voxel_map@.remove(i)
                &&& final(voxel_map).entity_map@ == old(voxel_map).entity_map@.remove(i)
            },
            None => final(voxel_map).voxel_map@ == old(voxel_map).voxel_map@
                && final(voxel_map).entity_map@ == old(voxel_map).entity_map@,
        },
        !has_voxel(final(voxel_map).voxel_map@, position),
{
    match voxel_map.find(position) {
        Some(i) => {
            let e = voxel_map.entity_map.remove(i);
            voxel_map.voxel_map.remove(i);
            proof {
                let s0 = old(voxel_map).voxel_map@;
                let s = voxel_map.voxel_map@;
                assert forall|a: int, b: int|
                    0 <= a < s.len() && 0 <= b < s.len() && a != b implies s[a].position
                    != s[b].position by {
                    let a0 = if a < i { a } else { a + 1 };
                    let b0 = if b < i { b } else { b + 1 };
                    assert(s[a] == s0[a0]);
                    assert(s[b] == s0[b0]);
                }
                if has_voxel(s, position) {
                    let k = choose|k: int| 0 <= k < s.len() && #[trigger] s[k].position == position;
                    let k0 = if k < i { k } else { k + 1 };
                    assert(s[k] == s0[k0]);
                }
            }
            Some(e)
        },
        None => None,
    }
}


/// The world's drawing data for the voxel definitions `defs`: one entry per
/// definition, in order, drawn from the texture row of its place in the list.
pub open spec fn assets_of(defs: Seq<VoxelDefinition>) -> Seq<VoxelAsset> {
    Seq::new(defs.len(), |i: int| VoxelAsset { definition: defs[i], texture_row: i as usize })
}

/// An empty world drawn from the voxel definitions `voxel_defs`: the
/// definition at place `i` is drawn from texture row `i`.
pub fn create_voxel_map(voxel_defs: Vec<VoxelDefinition>) -> (r: VoxelMap)
    ensures
        r.wf(),
        r.voxel_map@.len() == 0,
        r.asset_map@ == assets_of(voxel_defs@),
{
    let ghost defs = voxel_defs@;
    let mut rest = voxel_defs;
    let mut assets: Vec<VoxelAsset> = Vec::new();
    let n = rest.len();
    let mut i: usize = 0;
    while i < n
        invariant
            i <= n,
            n == defs.len(),
            rest@ == defs.skip(i as int),
            assets@ == assets_of(defs.take(i as int)),
        decreases n - i,
    {
        let ghost before = rest@;
        let definition = rest.remove(0);
        assert(definition == defs[i as int]);
        assets.push(VoxelAsset { definition, texture_row: i });
        assert(rest@ =~= defs.skip(i + 1));
        assert(assets@ =~= assets_of(defs.take(i + 1)));
        i = i + 1;
    }
    assert(defs.take(n as int) =~= defs);
    VoxelMap::new(assets)
}


/// Removing the voxel just added at a free position gives back the world as
/// it was, and names the entity it was added with: in a well-formed world,
/// after a voxel is pushed at a free position, it is the voxel found there,
/// at the last index, and removing that index restores both lists.
pub proof fn lemma_add_then_remove(s: Seq<Voxel>, ents: Seq<u64>, v: Voxel, e: u64)
    requires
        positions_distinct(s),
        ents.len() == s.len(),
        !has_voxel(s, v.position),
    ensures
        positions_distinct(s.push(v)),
        has_voxel(s.push(v), v.position),
        voxel_at(s.push(v), v.position) == Some(v),
        index_of(s.push(v), v.position) == s.len(),
        ents.push(e)[index_of(s.push(v), v.position)] == e,
        s.push(v).remove(index_of(s.push(v), v.position)) == s,
        ents.push(e).remove(index_of(s.push(v), v.position)) == ents,
{
    let t = s.push(v);
    assert forall|i: int, j: int| 0 <= i < t.len() && 0 <= j < t.len() && i != j implies t[i].position != t[j].position by {
        if i == s.len() {
            assert(t[j] == s[j]);
        } else if j == s.len() {
            assert(t[i] == s[i]);
        } else {
            assert(t[i] == s[i] && t[j] == s[j]);
        }
    }
    lemma_index_of_unique(t, s.len() as int);
    assert(t.remove(s.len() as int) =~= s);
    assert(ents.push(e).remove(s.len() as int) =~= ents);
}


/// The voxels of world `s` after [`add_voxel`] is called with each of `vs`
/// in turn: each is added only where its position is still free.
pub open spec fn added_all(s: Seq<Voxel>, vs: Seq<Voxel>) -> Seq<Voxel>
    decreases vs.len(),
{
    if vs.len() == 0 {
        s
    } else {
        let prev = added_all(s, vs.drop_last());
        if has_voxel(prev, vs.last().position) {
            prev
        } else {
            prev.push(vs.last())
        }
    }
}

/// Adding the voxels of a well-formed world, in order, to an empty world
/// gives back the same voxels in the same order: reloading a saved world
/// restores it.
pub proof fn lemma_reload_restores_world(vs: Seq<Voxel>)
    requires
        positions_distinct(vs),
    ensures
        added_all(Seq::empty(), vs) == vs,
    decreases vs.len(),
{
    if vs.len() > 0 {
        let rest = vs.drop_last();
        assert(positions_distinct(rest)) by {
            assert forall|i: int, j: int| 0 <= i < rest.len() && 0 <= j < rest.len() && i != j implies rest[i].position != rest[j].position by {
                assert(rest[i] == vs[i] && rest[j] == vs[j]);
            }
        }
        lemma_reload_restores_world(rest);
        let last = vs.last();
        if has_voxel(rest, last.position) {
            let k = choose|k: int| 0 <= k < rest.len() && #[trigger] rest[k].position == last.position;
            assert(rest[k] == vs[k]);
            assert(vs[vs.len() - 1].position == vs[k].position);
        }
        assert(rest.push(last) =~= vs);
    }
}

/// The entities of world `s`, whose voxels carry `ents`, after [`add_voxel`]
/// is called with each voxel of `vs` and the entity of `es` beside it: an
/// entity is recorded only with a voxel that is added.
pub open spec fn entities_added(s: Seq<Voxel>, ents: Seq<u64>, vs: Seq<Voxel>, es: Seq<u64>) -> Seq<u64>
    decreases vs.len(),
{
    if vs.len() == 0 {
        ents
    } else {
        let prev = entities_added(s, ents, vs.drop_last(), es.drop_last());
        if has_voxel(added_all(s, vs.drop_last()), vs.last().position) {
            prev
        } else {
            prev.push(es.last())
        }
    }
}

/// Loading voxels into a world records every one of them: when the voxels of
/// `vs` stand at distinct positions that the world `s` leaves free, adding
/// them in turn with [`add_voxel`] (as `GameSession::record_voxel` does), each
/// with its entity of `es`, appends them all. Each of them
/// is then the voxel found at its position, with its entity beside it, and
/// no position is taken that neither `s` nor `vs` holds.
pub proof fn lemma_load_records_every_voxel(s: Seq<Voxel>, ents: Seq<u64>, vs: Seq<Voxel>, es: Seq<u64>)
    requires
        positions_distinct(s),
        ents.len() == s.len(),
        positions_distinct(vs),
        es.len() == vs.len(),
        forall|i: int| 0 <= i < vs.len() ==> !has_voxel(s, #[trigger] vs[i].position),
    ensures
        added_all(s, vs) == s + vs,
        entities_added(s, ents, vs, es) == ents + es,
        positions_distinct(s + vs),
        forall|i: int| 0 <= i < vs.len() ==> voxel_at(added_all(s, vs), #[trigger] vs[i].position) == Some(vs[i])
            && entities_added(s, ents, vs, es)[index_of(added_all(s, vs), vs[i].position)] == es[i],
        forall|p: IVec3| #[trigger] has_voxel(added_all(s, vs), p) ==> has_voxel(s, p) || has_voxel(vs, p),
    decreases vs.len(),
{
    let t = s + vs;
    if vs.len() == 0 {
        assert(s + vs =~= s);
        assert(ents + es =~= ents);
    } else {
        let rest = vs.drop_last();
        let last = vs.last();
        assert(positions_distinct(rest)) by {
            assert forall|i: int, j: int| 0 <= i < rest.len() && 0 <= j < rest.len() && i != j implies rest[i].position != rest[j].position by {
                assert(rest[i] == vs[i] && rest[j] == vs[j]);
            }
        }
        assert forall|i: int| 0 <= i < rest.len() implies !has_voxel(s, #[trigger] rest[i].position) by {
            assert(rest[i] == vs[i]);
        }
        lemma_load_records_every_voxel(s, ents, rest, es.drop_last());
        assert(!has_voxel(s + rest, last.position)) by {
            if has_voxel(s + rest, last.position) {
                let k = choose|k: int| 0 <= k < (s + rest).len() && #[trigger] (s + rest)[k].position == last.position;
                if k < s.len() {
                    assert(s[k].position == last.position);
                    assert(!has_voxel(s, vs[vs.len() - 1].position));
                } else {
                    assert(rest[k - s.len()] == vs[k - s.len()]);
                    assert(vs[vs.len() - 1].position == vs[k - s.len()].position);
                }
            }
        }
        assert((s + rest).push(last) =~= t);
        assert((ents + es.drop_last()).push(es.last()) =~= ents + es);
    }
    assert(added_all(s, vs) == t);
    assert(positions_distinct(t)) by {
        assert forall|i: int, j: int| 0 <= i < t.len() && 0 <= j < t.len() && i != j implies t[i].position != t[j].position by {
            if i < s.len() && j < s.len() {
                assert(t[i] == s[i] && t[j] == s[j]);
            } else if i >= s.len() && j >= s.len() {
                assert(t[i] == vs[i - s.len()] && t[j] == vs[j - s.len()]);
            } else if i < s.len() {
                assert(t[i] == s[i] && t[j] == vs[j - s.len()]);
                assert(!has_voxel(s, vs[j - s.len()].position));
            } else {
                assert(t[j] == s[j] && t[i] == vs[i - s.len()]);
                assert(!has_voxel(s, vs[i - s.len()].position));
            }
        }
    }
    assert forall|i: int| 0 <= i < vs.len() implies voxel_at(added_all(s, vs), #[trigger] vs[i].position) == Some(vs[i])
        && entities_added(s, ents, vs, es)[index_of(added_all(s, vs), vs[i].position)] == es[i] by {
        assert(t[s.len() + i] == vs[i]);
        lemma_index_of_unique(t, s.len() + i);
        assert((ents + es)[s.len() + i] == es[i]);
    }
    assert forall|p: IVec3| #[trigger] has_voxel(added_all(s, vs), p) implies has_voxel(s, p) || has_voxel(vs, p) by {
        let k = choose|k: int| 0 <= k < t.len() && #[trigger] t[k].position == p;
        if k < s.len() {
            assert(t[k] == s[k]);
        } else {
            assert(t[k] == vs[k - s.len()]);
        }
    }
}

/// The six neighbour cells come in the order +X, -X, +Y, -Y, +Z, -Z: each is
/// one step from `p` along one axis, the positive side first.
pub proof fn lemma_neighbor_order(p: IVec3)
    requires
        i32::MIN < p.x < i32::MAX,
        i32::MIN < p.y < i32::MAX,
        i32::MIN < p.z < i32::MAX,
    ensures
        neighbor(p, 0) == (IVec3 { x: (p.x + 1) as i32, y: p.y, z: p.z }),
        neighbor(p, 1) == (IVec3 { x: (p.x - 1) as i32, y: p.y, z: p.z }),
        neighbor(p, 2) == (IVec3 { x: p.x, y: (p.y + 1) as i32, z: p.z }),
        neighbor(p, 3) == (IVec3 { x: p.x, y: (p.y - 1) as i32, z: p.z }),
        neighbor(p, 4) == (IVec3 { x: p.x, y: p.y, z: (p.z + 1) as i32 }),
        neighbor(p, 5) == (IVec3 { x: p.x, y: p.y, z: (p.z - 1) as i32 }),
{
    assert(p.x.wrapping_add(0i32) == p.x && p.y.wrapping_add(0i32) == p.y && p.z.wrapping_add(0i32) == p.z);
    assert(p.x.wrapping_add(1i32) == p.x + 1 && p.y.wrapping_add(1i32) == p.y + 1 && p.z.wrapping_add(1i32) == p.z + 1);
    assert(p.x.wrapping_add(-1i32) == p.x - 1 && p.y.wrapping_add(-1i32) == p.y - 1 && p.z.wrapping_add(-1i32) == p.z - 1);
}

} // verus!

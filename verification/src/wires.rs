use vstd::prelude::*;

use crate::bits::{Bits16, bit, lemma_bit_or, lemma_bit_set, lemma_bit_clear};
use crate::logic::{carries_spec, is_cable, output_of, clamp_spec, clamp_state, voxel_directions, LogicEvent};
use crate::voxel::{Voxel, VoxelType};
use crate::world::{
    VoxelMap, adjacent, lemma_adjacent_symmetric, neighbor, get_neighboring_coords, has_voxel,
};
use crate::logic::carries;

verus! {

/// Voxel `i` of `s` carries channel `ch`.
pub open spec fn carrier(s: Seq<Voxel>, ch: u8, i: int) -> bool {
    0 <= i < s.len() && carries_spec(s[i].kind, ch)
}

/// Voxels `i` and `j` both carry channel `ch` and touch face to face.
pub open spec fn linked(s: Seq<Voxel>, ch: u8, i: int, j: int) -> bool {
    carrier(s, ch, i) && carrier(s, ch, j) && adjacent(s[i].position, s[j].position)
}

/// `p` is a walk through carriers of channel `ch`, each step to a touching
/// carrier.
pub open spec fn is_path(s: Seq<Voxel>, ch: u8, p: Seq<int>) -> bool {
    &&& p.len() > 0
    &&& forall|k: int| 0 <= k < p.len() ==> #[trigger] carrier(s, ch, p[k])
    &&& forall|k: int| 0 <= k < p.len() - 1 ==> #[trigger] linked(s, ch, p[k], p[k + 1])
}

/// Carrier `j` can be reached from carrier `i` along carriers of channel `ch`.
pub open spec fn connected(s: Seq<Voxel>, ch: u8, i: int, j: int) -> bool {
    exists|p: Seq<int>| #[trigger] is_path(s, ch, p) && p[0] == i && p.last() == j
}

/// A voxel that drives its output: not a cable, and holding a nonzero word.
pub open spec fn is_source(v: Voxel) -> bool {
    !is_cable(v.kind) && v.state.word != 0
}

/// Some source among the first `m` voxels of `s` drives channel `ch` into
/// position `q`.
pub open spec fn fed_upto(s: Seq<Voxel>, q: crate::voxel::IVec3, ch: u8, m: int) -> bool {
    exists|g: int|
        0 <= g < m && g < s.len() && is_source(s[g]) && output_of(s[g]) == q && #[trigger] bit(
            s[g].state.word,
            ch,
        )
}

/// Some source of `s` drives channel `ch` into position `q`.
pub open spec fn fed_at(s: Seq<Voxel>, q: crate::voxel::IVec3, ch: u8) -> bool {
    fed_upto(s, q, ch, s.len() as int)
}

/// Carrier `i` is driven high on channel `ch`: some carrier connected to it
/// is fed that channel by a source.
pub open spec fn driven(s: Seq<Voxel>, ch: u8, i: int) -> bool {
    exists|j: int| #[trigger] connected(s, ch, i, j) && fed_at(s, s[j].position, ch)
}

pub proof fn lemma_linked_symmetric(s: Seq<Voxel>, ch: u8, i: int, j: int)
    requires
        linked(s, ch, i, j),
    ensures
        linked(s, ch, j, i),
{
    lemma_adjacent_symmetric(s[i].position, s[j].position);
}

/// Every carrier is connected to itself.
pub proof fn lemma_connected_refl(s: Seq<Voxel>, ch: u8, i: int)
    requires
        carrier(s, ch, i),
    ensures
        connected(s, ch, i, i),
{
    let p = seq![i];
    assert(is_path(s, ch, p));
}

/// A walk can be extended by one more step.
pub proof fn lemma_connected_extend(s: Seq<Voxel>, ch: u8, i: int, j: int, k: int)
    requires
        connected(s, ch, i, j),
        linked(s, ch, j, k),
    ensures
        connected(s, ch, i, k),
{
    let p = choose|p: Seq<int>| #[trigger] is_path(s, ch, p) && p[0] == i && p.last() == j;
    let q = p.push(k);
    assert forall|m: int| 0 <= m < q.len() - 1 implies #[trigger] linked(s, ch, q[m], q[m + 1]) by {
        if m < p.len() - 1 {
            assert(linked(s, ch, p[m], p[m + 1]));
        }
    }
    assert forall|m: int| 0 <= m < q.len() implies #[trigger] carrier(s, ch, q[m]) by {
        if m < p.len() {
            assert(carrier(s, ch, p[m]));
        }
    }
    assert(is_path(s, ch, q));
}

/// Walks join end to start.
pub proof fn lemma_connected_trans(s: Seq<Voxel>, ch: u8, i: int, j: int, k: int)
    requires
        connected(s, ch, i, j),
        connected(s, ch, j, k),
    ensures
        connected(s, ch, i, k),
{
    let p = choose|p: Seq<int>| #[trigger] is_path(s, ch, p) && p[0] == i && p.last() == j;
    let q = choose|q: Seq<int>| #[trigger] is_path(s, ch, q) && q[0] == j && q.last() == k;
    let r = p + q.drop_first();
    assert forall|m: int| 0 <= m < r.len() implies #[trigger] carrier(s, ch, r[m]) by {
        if m < p.len() {
            assert(carrier(s, ch, p[m]));
        } else {
            assert(r[m] == q[m - p.len() + 1]);
            assert(carrier(s, ch, q[m - p.len() + 1]));
        }
    }
    assert forall|m: int| 0 <= m < r.len() - 1 implies #[trigger] linked(s, ch, r[m], r[m + 1]) by {
        if m < p.len() - 1 {
            assert(linked(s, ch, p[m], p[m + 1]));
        } else if m == p.len() - 1 {
            assert(r[m] == q[0]);
            assert(r[m + 1] == q[1]);
            assert(linked(s, ch, q[0], q[1]));
        } else {
            let mq = m - p.len() + 1;
            assert(r[m] == q[mq]);
            assert(r[m + 1] == q[mq + 1]);
            assert(linked(s, ch, q[mq], q[mq + 1]));
        }
    }
    if q.len() == 1 {
        assert(r =~= p);
    }
    assert(is_path(s, ch, r));
}

/// A walk read backwards is a walk.
pub proof fn lemma_connected_symmetric(s: Seq<Voxel>, ch: u8, i: int, j: int)
    requires
        connected(s, ch, i, j),
    ensures
        connected(s, ch, j, i),
{
    let p = choose|p: Seq<int>| #[trigger] is_path(s, ch, p) && p[0] == i && p.last() == j;
    let r = p.reverse();
    assert forall|m: int| 0 <= m < r.len() implies #[trigger] carrier(s, ch, r[m]) by {
        assert(r[m] == p[p.len() - 1 - m]);
        assert(carrier(s, ch, p[p.len() - 1 - m]));
    }
    assert forall|m: int| 0 <= m < r.len() - 1 implies #[trigger] linked(s, ch, r[m], r[m + 1]) by {
        let a = p.len() - 2 - m;
        assert(r[m] == p[a + 1]);
        assert(r[m + 1] == p[a]);
        assert(linked(s, ch, p[a], p[a + 1]));
        lemma_linked_symmetric(s, ch, p[a], p[a + 1]);
    }
    assert(is_path(s, ch, r));
}

/// The marked voxels are carriers and every carrier touching a marked one is
/// marked.
pub open spec fn closed(s: Seq<Voxel>, ch: u8, vis: Seq<bool>) -> bool {
    &&& vis.len() == s.len()
    &&& forall|k: int| 0 <= k < s.len() && #[trigger] vis[k] ==> carrier(s, ch, k)
    &&& forall|k: int, j: int| 0 <= k < s.len() && vis[k] && #[trigger] linked(s, ch, k, j) ==> vis[j]
}

/// A walk that starts in a closed marking stays in it.
pub proof fn lemma_closed_path(s: Seq<Voxel>, ch: u8, vis: Seq<bool>, p: Seq<int>)
    requires
        closed(s, ch, vis),
        is_path(s, ch, p),
        vis[p[0]],
    ensures
        vis[p.last()],
    decreases p.len(),
{
    if p.len() > 1 {
        let q = p.drop_last();
        assert forall|m: int| 0 <= m < q.len() implies #[trigger] carrier(s, ch, q[m]) by {
            assert(carrier(s, ch, p[m]));
        }
        assert forall|m: int| 0 <= m < q.len() - 1 implies #[trigger] linked(s, ch, q[m], q[m + 1]) by {
            assert(linked(s, ch, p[m], p[m + 1]));
        }
        lemma_closed_path(s, ch, vis, q);
        let k = p.len() - 2;
        assert(linked(s, ch, p[k], p[k + 1]));
        assert(carrier(s, ch, p[k]));
    }
}

/// Everything connected to a marked voxel of a closed marking is marked.
pub proof fn lemma_closed_connected(s: Seq<Voxel>, ch: u8, vis: Seq<bool>, i: int, j: int)
    requires
        closed(s, ch, vis),
        connected(s, ch, i, j),
        vis[i],
    ensures
        vis[j],
{
    let p = choose|p: Seq<int>| #[trigger] is_path(s, ch, p) && p[0] == i && p.last() == j;
    lemma_closed_path(s, ch, vis, p);
}

/// A list of distinct indices below `n` has at most `n` entries.
pub proof fn lemma_distinct_bounded(q: Seq<usize>, n: usize)
    requires
        q.no_duplicates(),
        forall|k: int| 0 <= k < q.len() ==> #[trigger] q[k] < n,
    ensures
        q.len() <= n,
{
    let qi = q.map_values(|x: usize| x as int);
    assert forall|a: int, b: int| 0 <= a < qi.len() && 0 <= b < qi.len() && a != b implies qi[a]
        != qi[b] by {
        assert(q[a] != q[b]);
    }
    assert(qi.no_duplicates());
    qi.unique_seq_to_set();
    vstd::set_lib::lemma_int_range(0, n as int);
    assert forall|x: int| qi.to_set().contains(x) implies vstd::set_lib::set_int_range(0, n as int).contains(x) by {
        let k = choose|k: int| 0 <= k < qi.len() && qi[k] == x;
        assert(q[k] < n);
    }
    vstd::set_lib::lemma_len_subset(qi.to_set(), vstd::set_lib::set_int_range(0, n as int));
}

/// Marks and returns every carrier of channel `ch` connected to `start`,
/// breadth first. The carriers marked before are a closed set that does not
/// hold `start`; they stay marked and none of them is returned.
pub fn explore(voxel_map: &VoxelMap, ch: u8, start: usize, visited: &mut Vec<bool>) -> (comp: Vec<usize>)
    requires
        voxel_map.wf(),
        closed(voxel_map.voxel_map@, ch, old(visited)@),
        carrier(voxel_map.voxel_map@, ch, start as int),
        !old(visited)@[start as int],
    ensures
        closed(voxel_map.voxel_map@, ch, final(visited)@),
        comp@.no_duplicates(),
        comp@.len() > 0,
        comp@[0] == start,
        forall|k: int| 0 <= k < comp@.len() ==> #[trigger] comp@[k] < voxel_map.voxel_map@.len()
            && !old(visited)@[comp@[k] as int],
        forall|x: int|
            0 <= x < voxel_map.voxel_map@.len() ==> (#[trigger] final(visited)@[x] == (old(visited)@[x]
                || comp@.contains(x as usize))),
        forall|x: int|
            0 <= x < voxel_map.voxel_map@.len() ==> (comp@.contains(x as usize) == #[trigger] connected(
                voxel_map.voxel_map@,
                ch,
                start as int,
                x,
            )),
{
    let ghost s = voxel_map.voxel_map@;
    let ghost old_vis = visited@;
    let n = voxel_map.voxel_map.len();
    visited[start] = true;
    let mut queue: Vec<usize> = Vec::new();
    queue.push(start);
    proof {
        lemma_connected_refl(s, ch, start as int);
        assert forall|x: int| 0 <= x < n implies #[trigger] visited@[x] == (old_vis[x] || queue@.contains(x as usize)) by {
            if x == start as int {
                assert(queue@[0] == start);
            }
        }
    }
    let mut head: usize = 0;
    while head < queue.len()
        invariant
            voxel_map.wf(),
            s == voxel_map.voxel_map@,
            n == s.len(),
            visited@.len() == n,
            closed(s, ch, old_vis),
            !old_vis[start as int],
            carrier(s, ch, start as int),
            queue@.len() > 0,
            queue@[0] == start,
            head <= queue@.len(),
            queue@.len() <= n,
            queue@.no_duplicates(),
            forall|k: int| 0 <= k < queue@.len() ==> #[trigger] queue@[k] < n && !old_vis[queue@[k] as int]
                && connected(s, ch, start as int, queue@[k] as int)
                && connected(s, ch, queue@[k] as int, start as int),
            forall|x: int| 0 <= x < n ==> #[trigger] visited@[x] == (old_vis[x] || queue@.contains(x as usize)),
            forall|x: int| 0 <= x < n && #[trigger] visited@[x] ==> carrier(s, ch, x),
            forall|k: int, j: int|
                0 <= k < head && #[trigger] linked(s, ch, queue@[k] as int, j) ==> visited@[j],
        decreases 2 * n - head - queue@.len(),
    {
        let cur = queue[head];
        let cur_pos = voxel_map.voxel_map[cur].position;
        let nbs = get_neighboring_coords(cur_pos);
        let ghost q_before = queue@;
        let mut d: usize = 0;
        while d < 6
            invariant
                voxel_map.wf(),
                s == voxel_map.voxel_map@,
                n == s.len(),
                visited@.len() == n,
                closed(s, ch, old_vis),
                !old_vis[start as int],
                carrier(s, ch, start as int),
                head < q_before.len(),
                cur == q_before[head as int],
                cur < n,
                cur_pos == s[cur as int].position,
                forall|e: int| 0 <= e < 6 ==> #[trigger] nbs@[e] == neighbor(cur_pos, e),
                d <= 6,
                queue@.len() > 0,
                queue@[0] == start,
                q_before.len() <= queue@.len(),
                forall|k: int| 0 <= k < q_before.len() ==> #[trigger] queue@[k] == q_before[k],
                queue@.len() <= n,
                queue@.no_duplicates(),
                forall|k: int| 0 <= k < queue@.len() ==> #[trigger] queue@[k] < n && !old_vis[queue@[k] as int]
                    && connected(s, ch, start as int, queue@[k] as int)
                    && connected(s, ch, queue@[k] as int, start as int),
                forall|x: int| 0 <= x < n ==> #[trigger] visited@[x] == (old_vis[x] || queue@.contains(x as usize)),
                forall|x: int| 0 <= x < n && #[trigger] visited@[x] ==> carrier(s, ch, x),
                forall|k: int, j: int|
                    0 <= k < head && #[trigger] linked(s, ch, q_before[k] as int, j) ==> visited@[j],
                forall|e: int, j: int|
                    #![trigger s[j], neighbor(cur_pos, e)]
                    0 <= e < d && 0 <= j < n && carrier(s, ch, j) && s[j].position == neighbor(cur_pos, e)
                    ==> visited@[j],
            decreases 6 - d,
        {
            let nb = nbs[d];
            match voxel_map.find(nb) {
                Some(j) => {
                    if !visited[j] && carries(&voxel_map.voxel_map[j], ch) {
                        proof {
                            assert(!queue@.contains(j));
                            assert(neighbor(cur_pos, d as int) == s[j as int].position);
                            assert(adjacent(s[cur as int].position, s[j as int].position));
                            assert(queue@[head as int] == cur);
                            assert(queue@.contains(cur));
                            assert(visited@[cur as int]);
                            assert(carrier(s, ch, cur as int));
                            assert(linked(s, ch, cur as int, j as int));
                            assert(connected(s, ch, start as int, cur as int));
                            lemma_connected_extend(s, ch, start as int, cur as int, j as int);
                            lemma_linked_symmetric(s, ch, cur as int, j as int);
                            lemma_connected_refl(s, ch, j as int);
                            lemma_connected_extend(s, ch, j as int, j as int, cur as int);
                            lemma_connected_trans(s, ch, j as int, cur as int, start as int);
                        }
                        let ghost q0 = queue@;
                        visited[j] = true;
                        queue.push(j);
                        proof {
                            assert(queue@ == q0.push(j));
                            assert forall|a: int, b: int| 0 <= a < queue@.len() && 0 <= b < queue@.len() && a != b
                                implies queue@[a] != queue@[b] by {
                                if a == q0.len() as int {
                                    assert(q0.contains(queue@[b]) || b == a);
                                } else if b == q0.len() as int {
                                    assert(q0.contains(queue@[a]));
                                }
                            }
                            assert forall|x: int| 0 <= x < n implies #[trigger] visited@[x] == (old_vis[x]
                                || queue@.contains(x as usize)) by {
                                if x == j as int {
                                    assert(queue@[q0.len() as int] == j);
                                } else {
                                    if queue@.contains(x as usize) {
                                        let k = choose|k: int| 0 <= k < queue@.len() && queue@[k] == x as usize;
                                        if k < q0.len() {
                                            assert(q0.contains(x as usize));
                                        }
                                    }
                                    if q0.contains(x as usize) {
                                        let k = choose|k: int| 0 <= k < q0.len() && q0[k] == x as usize;
                                        assert(queue@[k] == x as usize);
                                    }
                                }
                            }
                            lemma_distinct_bounded(queue@, n);
                        }
                    }
                },
                None => {
                    proof {
                        assert(!has_voxel(s, nb));
                    }
                },
            }
            d = d + 1;
        }
        proof {
            assert forall|k: int, j: int|
                0 <= k < head + 1 && #[trigger] linked(s, ch, queue@[k] as int, j) implies visited@[j] by {
                if k < head {
                    assert(linked(s, ch, q_before[k] as int, j));
                } else {
                    let e = choose|e: int| 0 <= e < 6 && #[trigger] neighbor(s[cur as int].position, e)
                        == s[j].position;
                    assert(s[j].position == neighbor(cur_pos, e));
                }
            }
        }
        head = head + 1;
    }
    proof {
        let fv = visited@;
        assert forall|k: int, j: int| 0 <= k < s.len() && fv[k] && #[trigger] linked(s, ch, k, j) implies fv[j] by {
            if old_vis[k] {
                assert(old_vis[j]);
            } else {
                assert(queue@.contains(k as usize));
                let m = choose|m: int| 0 <= m < queue@.len() && queue@[m] == k as usize;
                assert(linked(s, ch, queue@[m] as int, j));
            }
        }
        assert(closed(s, ch, fv));
        assert forall|x: int| 0 <= x < n implies (queue@.contains(x as usize) == #[trigger] connected(
            s,
            ch,
            start as int,
            x,
        )) by {
            if queue@.contains(x as usize) {
                let m = choose|m: int| 0 <= m < queue@.len() && queue@[m] == x as usize;
                assert(connected(s, ch, start as int, queue@[m] as int));
            }
            if connected(s, ch, start as int, x) {
                lemma_closed_connected(s, ch, fv, start as int, x);
                if old_vis[x] {
                    lemma_connected_symmetric(s, ch, start as int, x);
                    lemma_closed_connected(s, ch, old_vis, x, start as int);
                }
            }
        }
    }
    queue
}

/// For every voxel, the word the sources drive into its position: the union of
/// the words of all sources whose output is that position.
fn gather_gate_drive(voxel_map: &VoxelMap) -> (drive: Vec<u16>)
    requires
        voxel_map.wf(),
    ensures
        drive@.len() == voxel_map.voxel_map@.len(),
        forall|i: int, ch: u8|
            0 <= i < drive@.len() ==> #[trigger] bit(drive@[i], ch) == fed_at(
                voxel_map.voxel_map@,
                voxel_map.voxel_map@[i].position,
                ch,
            ),
{
    let ghost s = voxel_map.voxel_map@;
    let n = voxel_map.voxel_map.len();
    let mut drive: Vec<u16> = Vec::new();
    let mut i: usize = 0;
    while i < n
        invariant
            i <= n,
            n == s.len(),
            drive@.len() == i,
            forall|k: int| 0 <= k < i ==> #[trigger] drive@[k] == 0u16,
        decreases n - i,
    {
        drive.push(0u16);
        i = i + 1;
    }
    proof {
        assert forall|k: int, ch: u8| 0 <= k < n implies #[trigger] bit(drive@[k], ch) == fed_upto(
            s,
            s[k].position,
            ch,
            0,
        ) by {
            crate::bits::lemma_bit_constants(ch);
        }
    }
    let mut g: usize = 0;
    while g < n
        invariant
            voxel_map.wf(),
            s == voxel_map.voxel_map@,
            g <= n,
            n == s.len(),
            drive@.len() == n,
            forall|k: int, ch: u8|
                0 <= k < n ==> #[trigger] bit(drive@[k], ch) == fed_upto(s, s[k].position, ch, g as int),
        decreases n - g,
    {
        let v = voxel_map.voxel_map[g];
        let cable = match v.kind {
            VoxelType::Wire(_) => true,
            VoxelType::BundledWire => true,
            _ => false,
        };
        if !cable && v.state.any_set() {
            let (_, out) = voxel_directions(&v);
            match voxel_map.find(out) {
                Some(j) => {
                    let ghost d0 = drive@;
                    let w = drive[j] | v.state.word;
                    drive[j] = w;
                    proof {
                        assert forall|k: int, ch: u8| 0 <= k < n implies #[trigger] bit(drive@[k], ch)
                            == fed_upto(s, s[k].position, ch, g + 1) by {
                            assert(bit(d0[k], ch) == fed_upto(s, s[k].position, ch, g as int));
                            if k == j as int {
                                lemma_bit_or(d0[k], v.state.word, ch);
                                if bit(v.state.word, ch) {
                                    assert(fed_upto(s, s[k].position, ch, g + 1));
                                }
                                if fed_upto(s, s[k].position, ch, g + 1) {
                                    let h = choose|h: int| 0 <= h < g + 1 && h < s.len() && is_source(s[h])
                                        && output_of(s[h]) == s[k].position && #[trigger] bit(s[h].state.word, ch);
                                    if h < g {
                                        assert(fed_upto(s, s[k].position, ch, g as int));
                                    }
                                }
                            } else {
                                if fed_upto(s, s[k].position, ch, g + 1) {
                                    let h = choose|h: int| 0 <= h < g + 1 && h < s.len() && is_source(s[h])
                                        && output_of(s[h]) == s[k].position && #[trigger] bit(s[h].state.word, ch);
                                    if h == g {
                                        assert(s[j as int].position == out);
                                        assert(s[k].position == out);
                                    } else {
                                        assert(fed_upto(s, s[k].position, ch, g as int));
                                    }
                                }
                            }
                        }
                    }
                },
                None => {
                    proof {
                        assert forall|k: int, ch: u8| 0 <= k < n implies #[trigger] bit(drive@[k], ch)
                            == fed_upto(s, s[k].position, ch, g + 1) by {
                            if fed_upto(s, s[k].position, ch, g + 1) {
                                let h = choose|h: int| 0 <= h < g + 1 && h < s.len() && is_source(s[h])
                                    && output_of(s[h]) == s[k].position && #[trigger] bit(s[h].state.word, ch);
                                if h == g {
                                    assert(has_voxel(s, out));
                                } else {
                                    assert(fed_upto(s, s[k].position, ch, g as int));
                                }
                            }
                        }
                    }
                },
            }
        } else {
            proof {
                assert forall|k: int, ch: u8| 0 <= k < n implies #[trigger] bit(drive@[k], ch) == fed_upto(
                    s,
                    s[k].position,
                    ch,
                    g + 1,
                ) by {
                    if fed_upto(s, s[k].position, ch, g + 1) {
                        let h = choose|h: int| 0 <= h < g + 1 && h < s.len() && is_source(s[h])
                            && output_of(s[h]) == s[k].position && #[trigger] bit(s[h].state.word, ch);
                        if h < g {
                            assert(fed_upto(s, s[k].position, ch, g as int));
                        }
                    }
                }
            }
        }
        g = g + 1;
    }
    drive
}

/// `base` with channel `ch` turned on or off.
pub open spec fn edit_word(base: u16, ch: u8, on: bool) -> u16 {
    if on {
        base | (1u16 << (ch as u16))
    } else {
        base & !(1u16 << (ch as u16))
    }
}

/// The word voxel `i` is to take after the channels below `upto` are
/// settled: each channel on which the voxel carries a signal that differs
/// from its connected carriers' drive is set to that drive, starting from the
/// voxel's word, and the result is clamped to what the voxel may hold.
/// `None` while no channel needed a change.
pub open spec fn pending_after(s: Seq<Voxel>, i: int, upto: int) -> Option<u16>
    decreases upto,
{
    if upto <= 0 {
        None
    } else {
        let prev = pending_after(s, i, upto - 1);
        let c = (upto - 1) as u8;
        if carrier(s, c, i) && bit(s[i].state.word, c) != driven(s, c, i) {
            let base = match prev {
                Some(w) => w,
                None => s[i].state.word,
            };
            Some(clamp_spec(s[i].kind, edit_word(base, c, driven(s, c, i))))
        } else {
            prev
        }
    }
}

/// Every channel of `w` equals the drive of voxel `i` on that channel.
pub open spec fn matches_drive(s: Seq<Voxel>, i: int, w: u16) -> bool {
    forall|c: u8| c < 16 ==> #[trigger] bit(w, c) == driven(s, c, i)
}

/// The word that a single-channel wire on channel `c` or a bundled wire
/// settles to: every channel it carries at its drive, every other channel
/// off. `None` when the voxel's channels already match their drive, and for
/// every voxel that is not a wire on an existing channel.
pub open spec fn settle_target(s: Seq<Voxel>, i: int) -> Option<u16> {
    let cur = s[i].state.word;
    match s[i].kind {
        VoxelType::Wire(c) => if c < 16 && bit(cur, c) != driven(s, c, i) {
            Some(if driven(s, c, i) { 0u16 | (1u16 << (c as u16)) } else { 0u16 })
        } else {
            None
        },
        VoxelType::BundledWire => if exists|c: u8| c < 16 && #[trigger] bit(cur, c) != driven(s, c, i) {
            Some(choose|w: u16| #[trigger] matches_drive(s, i, w))
        } else {
            None
        },
        _ => None,
    }
}

/// The updates the wires of `s` need, for the first `k` voxels, in map order:
/// one for each voxel with a settle target, to that word.
pub open spec fn propagation_events(s: Seq<Voxel>, k: int) -> Seq<LogicEvent>
    decreases k,
{
    if k <= 0 {
        Seq::empty()
    } else {
        let prev = propagation_events(s, k - 1);
        match settle_target(s, k - 1) {
            Some(w) => prev.push(
                LogicEvent::UpdateVoxel { position: s[k - 1].position, new_state: Bits16 { word: w } },
            ),
            None => prev,
        }
    }
}

/// Two words with the same sixteen channels are equal.
pub proof fn lemma_bits_ext(a: u16, b: u16)
    requires
        forall|c: u8| c < 16 ==> #[trigger] bit(a, c) == bit(b, c),
    ensures
        a == b,
{
    assert(bit(a, 0) == bit(b, 0));
    assert(bit(a, 1) == bit(b, 1));
    assert(bit(a, 2) == bit(b, 2));
    assert(bit(a, 3) == bit(b, 3));
    assert(bit(a, 4) == bit(b, 4));
    assert(bit(a, 5) == bit(b, 5));
    assert(bit(a, 6) == bit(b, 6));
    assert(bit(a, 7) == bit(b, 7));
    assert(bit(a, 8) == bit(b, 8));
    assert(bit(a, 9) == bit(b, 9));
    assert(bit(a, 10) == bit(b, 10));
    assert(bit(a, 11) == bit(b, 11));
    assert(bit(a, 12) == bit(b, 12));
    assert(bit(a, 13) == bit(b, 13));
    assert(bit(a, 14) == bit(b, 14));
    assert(bit(a, 15) == bit(b, 15));
    assert(((((a >> 0u16) & 1u16) == 1u16) == (((b >> 0u16) & 1u16) == 1u16)
        && (((a >> 1u16) & 1u16) == 1u16) == (((b >> 1u16) & 1u16) == 1u16)
        && (((a >> 2u16) & 1u16) == 1u16) == (((b >> 2u16) & 1u16) == 1u16)
        && (((a >> 3u16) & 1u16) == 1u16) == (((b >> 3u16) & 1u16) == 1u16)
        && (((a >> 4u16) & 1u16) == 1u16) == (((b >> 4u16) & 1u16) == 1u16)
        && (((a >> 5u16) & 1u16) == 1u16) == (((b >> 5u16) & 1u16) == 1u16)
        && (((a >> 6u16) & 1u16) == 1u16) == (((b >> 6u16) & 1u16) == 1u16)
        && (((a >> 7u16) & 1u16) == 1u16) == (((b >> 7u16) & 1u16) == 1u16)
        && (((a >> 8u16) & 1u16) == 1u16) == (((b >> 8u16) & 1u16) == 1u16)
        && (((a >> 9u16) & 1u16) == 1u16) == (((b >> 9u16) & 1u16) == 1u16)
        && (((a >> 10u16) & 1u16) == 1u16) == (((b >> 10u16) & 1u16) == 1u16)
        && (((a >> 11u16) & 1u16) == 1u16) == (((b >> 11u16) & 1u16) == 1u16)
        && (((a >> 12u16) & 1u16) == 1u16) == (((b >> 12u16) & 1u16) == 1u16)
        && (((a >> 13u16) & 1u16) == 1u16) == (((b >> 13u16) & 1u16) == 1u16)
        && (((a >> 14u16) & 1u16) == 1u16) == (((b >> 14u16) & 1u16) == 1u16)
        && (((a >> 15u16) & 1u16) == 1u16) == (((b >> 15u16) & 1u16) == 1u16))
        ==> a == b) by (bit_vector);
}

/// What the settling of the channels below `upto` gives for a bundled wire:
/// a change is pending exactly when some of those channels differs from its
/// drive, and the pending word then has those channels at their drive and the
/// others as they were.
pub open spec fn bundled_settled(s: Seq<Voxel>, i: int, upto: int) -> bool {
    let cur = s[i].state.word;
    &&& (pending_after(s, i, upto) is Some) == (exists|c: u8| c < upto && #[trigger] bit(cur, c) != driven(s, c, i))
    &&& (pending_after(s, i, upto) matches Some(w) ==> (forall|c: u8| #[trigger] bit(w, c) == if c < upto {
        driven(s, c, i)
    } else {
        bit(cur, c)
    }))
}

proof fn lemma_bundled_settled(s: Seq<Voxel>, i: int, upto: int)
    requires
        0 <= i < s.len(),
        s[i].kind == VoxelType::BundledWire,
        0 <= upto <= 16,
    ensures
        bundled_settled(s, i, upto),
    decreases upto,
{
    let cur = s[i].state.word;
    if upto == 0 {
        assert(!(exists|c: u8| c < upto && #[trigger] bit(cur, c) != driven(s, c, i)));
    } else {
        lemma_bundled_settled(s, i, upto - 1);
        let c = (upto - 1) as u8;
        let prev = pending_after(s, i, upto - 1);
        let d = driven(s, c, i);
        assert(carrier(s, c, i));
        if bit(cur, c) != d {
            let base = match prev {
                Some(w) => w,
                None => cur,
            };
            let w = edit_word(base, c, d);
            assert(pending_after(s, i, upto) == Some(w));
            assert forall|k: u8| #[trigger] bit(w, k) == if k < upto { driven(s, k, i) } else { bit(cur, k) } by {
                if d {
                    lemma_bit_set(base, c, k);
                } else {
                    lemma_bit_clear(base, c, k);
                }
                if k != c && prev is None && k < upto {
                    if bit(cur, k) != driven(s, k, i) {
                        assert(exists|c2: u8| c2 < upto - 1 && #[trigger] bit(cur, c2) != driven(s, c2, i));
                    }
                }
            }
        } else {
            assert(pending_after(s, i, upto) == prev);
            if exists|k: u8| k < upto && #[trigger] bit(cur, k) != driven(s, k, i) {
                let k = choose|k: u8| k < upto && #[trigger] bit(cur, k) != driven(s, k, i);
                assert(k != c);
            }
        }
    }
}

/// Settling the channels one after another ends in the settle target.
pub proof fn lemma_pending_is_target(s: Seq<Voxel>, i: int)
    requires
        0 <= i < s.len(),
    ensures
        pending_after(s, i, 16) == settle_target(s, i),
        s[i].kind == VoxelType::BundledWire ==> (settle_target(s, i) matches Some(w) ==> matches_drive(s, i, w)),
{
    match s[i].kind {
        VoxelType::BundledWire => {
            lemma_bundled_settled(s, i, 16);
            let cur = s[i].state.word;
            if let Some(w) = pending_after(s, i, 16) {
                assert(forall|c: u8| c < 16 ==> #[trigger] bit(w, c) == driven(s, c, i));
                assert(matches_drive(s, i, w));
                let t = choose|t: u16| #[trigger] matches_drive(s, i, t);
                assert forall|c: u8| c < 16 implies #[trigger] bit(t, c) == bit(w, c) by {
                    assert(bit(w, c) == driven(s, c, i));
                }
                lemma_bits_ext(t, w);
            }
        },
        VoxelType::Wire(c) => {
            lemma_wire_pending(s, i, c, 16);
        },
        _ => {
            lemma_other_pending(s, i, 16);
        },
    }
}

proof fn lemma_other_pending(s: Seq<Voxel>, i: int, upto: int)
    requires
        0 <= i < s.len(),
        !is_cable(s[i].kind),
        0 <= upto,
    ensures
        pending_after(s, i, upto) is None,
    decreases upto,
{
    if upto > 0 {
        lemma_other_pending(s, i, upto - 1);
    }
}

proof fn lemma_wire_pending(s: Seq<Voxel>, i: int, c: u8, upto: int)
    requires
        0 <= i < s.len(),
        s[i].kind == VoxelType::Wire(c),
        0 <= upto <= 16,
    ensures
        pending_after(s, i, upto) == if c < upto && bit(s[i].state.word, c) != driven(s, c, i) {
            Some(if driven(s, c, i) { 0u16 | (1u16 << (c as u16)) } else { 0u16 })
        } else {
            None::<u16>
        },
    decreases upto,
{
    if upto > 0 {
        lemma_wire_pending(s, i, c, upto - 1);
        let k = (upto - 1) as u8;
        if k == c && bit(s[i].state.word, c) != driven(s, c, i) {
            let d = driven(s, c, i);
            let w = edit_word(s[i].state.word, c, d);
            if d {
                lemma_bit_set(s[i].state.word, c, c);
            } else {
                lemma_bit_clear(s[i].state.word, c, c);
            }
            assert(bit(w, c) == d);
        }
    }
}

/// A carrier connected to a member of the component of `start` is driven
/// exactly when some member of that component is fed.
proof fn lemma_component_driven(s: Seq<Voxel>, ch: u8, start: int, comp: Seq<usize>, p: int)
    requires
        0 <= p < s.len(),
        s.len() <= usize::MAX,
        forall|x: int| 0 <= x < s.len() ==> (comp.contains(x as usize) == #[trigger] connected(s, ch, start, x)),
        forall|k: int| 0 <= k < comp.len() ==> #[trigger] comp[k] < s.len(),
        connected(s, ch, start, p),
    ensures
        driven(s, ch, p) == exists|k: int| 0 <= k < comp.len() && #[trigger] fed_at(s, s[comp[k] as int].position, ch),
{
    if driven(s, ch, p) {
        let j = choose|j: int| #[trigger] connected(s, ch, p, j) && fed_at(s, s[j].position, ch);
        lemma_connected_trans(s, ch, start, p, j);
        let pj = choose|pj: Seq<int>| #[trigger] is_path(s, ch, pj) && pj[0] == p && pj.last() == j;
        assert(carrier(s, ch, pj[pj.len() - 1]));
        assert(pj.last() == pj[pj.len() - 1]);
        assert(0 <= j < s.len());
        assert(comp.contains(j as usize));
        let k = choose|k: int| 0 <= k < comp.len() && comp[k] == j as usize;
        assert(comp[k] as int == j);
        assert(fed_at(s, s[comp[k] as int].position, ch));
    }
    if exists|k: int| 0 <= k < comp.len() && #[trigger] fed_at(s, s[comp[k] as int].position, ch) {
        let k = choose|k: int| 0 <= k < comp.len() && #[trigger] fed_at(s, s[comp[k] as int].position, ch);
        let q = comp[k] as int;
        assert(comp.contains(q as usize));
        assert(connected(s, ch, start, q));
        lemma_connected_symmetric(s, ch, start, p);
        lemma_connected_trans(s, ch, p, start, q);
        assert(connected(s, ch, p, q) && fed_at(s, s[q].position, ch));
    }
}

/// Computes, for every channel, which connected groups of carriers some gate
/// drives high, and returns an update for every carrier whose word must change
/// to match: on each channel it carries, a carrier is set to on exactly when a
/// carrier connected to it along that channel receives the channel from a gate
/// output; a single-channel wire keeps only its own channel.
pub fn propagate_wires(voxel_map: &VoxelMap) -> (r: Vec<LogicEvent>)
    requires
        voxel_map.wf(),
    ensures
        r@ == propagation_events(voxel_map.voxel_map@, voxel_map.voxel_map@.len() as int),
{
    let ghost s = voxel_map.voxel_map@;
    let n = voxel_map.voxel_map.len();
    let drive = gather_gate_drive(voxel_map);
    let mut pending: Vec<Option<u16>> = Vec::new();
    let mut i: usize = 0;
    while i < n
        invariant
            i <= n,
            n == s.len(),
            pending@.len() == i,
            forall|k: int| 0 <= k < i ==> #[trigger] pending@[k] == pending_after(s, k, 0),
        decreases n - i,
    {
        pending.push(None);
        i = i + 1;
    }
    let mut ch: u8 = 0;
    while ch < 16
        invariant
            voxel_map.wf(),
            s == voxel_map.voxel_map@,
            n == s.len(),
            ch <= 16,
            drive@.len() == n,
            forall|i: int, c: u8| 0 <= i < n ==> #[trigger] bit(drive@[i], c) == fed_at(s, s[i].position, c),
            pending@.len() == n,
            forall|k: int| 0 <= k < n ==> #[trigger] pending@[k] == pending_after(s, k, ch as int),
        decreases 16 - ch,
    {
        let mut visited: Vec<bool> = Vec::new();
        let mut i: usize = 0;
        while i < n
            invariant
                i <= n,
                n == s.len(),
                visited@.len() == i,
                forall|k: int| 0 <= k < i ==> !#[trigger] visited@[k],
            decreases n - i,
        {
            visited.push(false);
            i = i + 1;
        }
        let mut start: usize = 0;
        while start < n
            invariant
                voxel_map.wf(),
                s == voxel_map.voxel_map@,
                n == s.len(),
                ch < 16,
                start <= n,
                drive@.len() == n,
                forall|i: int, c: u8| 0 <= i < n ==> #[trigger] bit(drive@[i], c) == fed_at(s, s[i].position, c),
                closed(s, ch, visited@),
                forall|k: int| 0 <= k < start && carrier(s, ch, k) ==> #[trigger] visited@[k],
                pending@.len() == n,
                forall|k: int|
                    0 <= k < n ==> #[trigger] pending@[k] == if visited@[k] {
                        pending_after(s, k, ch + 1)
                    } else {
                        pending_after(s, k, ch as int)
                    },
            decreases n - start,
        {
            if !visited[start] && carries(&voxel_map.voxel_map[start], ch) {
                let ghost vis0 = visited@;
                let comp = explore(voxel_map, ch, start, &mut visited);
                let mut driven_high = false;
                let mut k: usize = 0;
                while k < comp.len()
                    invariant
                        n == s.len(),
                        ch < 16,
                        drive@.len() == n,
                        forall|i: int, c: u8| 0 <= i < n ==> #[trigger] bit(drive@[i], c) == fed_at(s, s[i].position, c),
                        forall|m: int| 0 <= m < comp@.len() ==> #[trigger] comp@[m] < n,
                        k <= comp@.len(),
                        driven_high == exists|m: int| 0 <= m < k && #[trigger] fed_at(s, s[comp@[m] as int].position, ch),
                    decreases comp@.len() - k,
                {
                    let hit = (drive[comp[k]] >> (ch as u16)) & 1u16 == 1u16;
                    proof {
                        assert(bit(drive@[comp@[k as int] as int], ch) == fed_at(s, s[comp@[k as int] as int].position, ch));
                    }
                    driven_high = driven_high || hit;
                    k = k + 1;
                }
                let ghost pend0 = pending@;
                proof {
                    assert forall|m: int| 0 <= m < comp@.len() implies driven_high == #[trigger] driven(s, ch, comp@[m] as int) && carrier(s, ch, comp@[m] as int) && pend0[comp@[m] as int] == pending_after(s, comp@[m] as int, ch as int) by {
                        let x = comp@[m] as int;
                        assert(comp@.contains(x as usize));
                        assert(connected(s, ch, start as int, x));
                        lemma_component_driven(s, ch, start as int, comp@, x);
                        assert(visited@[x]);
                        assert(!vis0[x]);
                    }
                    assert forall|m: int| 0 <= m < comp@.len() implies #[trigger] carrier(s, ch, comp@[m] as int) by {
                        let x = comp@[m] as int;
                        assert(comp@.contains(x as usize));
                        assert(visited@[x]);
                    }
                }
                let mut k: usize = 0;
                while k < comp.len()
                    invariant
                        voxel_map.wf(),
                        s == voxel_map.voxel_map@,
                        n == s.len(),
                        ch < 16,
                        pending@.len() == n,
                        forall|m: int| 0 <= m < comp@.len() ==> #[trigger] comp@[m] < n,
                        comp@.no_duplicates(),
                        k <= comp@.len(),
                        forall|m: int| 0 <= m < comp@.len() ==> driven_high == #[trigger] driven(s, ch, comp@[m] as int),
                        forall|m: int| 0 <= m < comp@.len() ==> #[trigger] carrier(s, ch, comp@[m] as int),
                        forall|m: int| 0 <= m < comp@.len() ==> pend0[comp@[m] as int] == #[trigger] pending_after(s, comp@[m] as int, ch as int),
                        forall|x: int|
                            0 <= x < n ==> #[trigger] pending@[x] == if (exists|m: int| 0 <= m < k && comp@[m] as int == x) {
                                pending_after(s, x, ch + 1)
                            } else {
                                pend0[x]
                            },
                    decreases comp@.len() - k,
                {
                    let p = comp[k];
                    proof {
                        assert(!(exists|m: int| 0 <= m < k && comp@[m] as int == p as int)) by {
                            if exists|m: int| 0 <= m < k && comp@[m] as int == p as int {
                                let m = choose|m: int| 0 <= m < k && comp@[m] as int == p as int;
                                assert(comp@[m] == comp@[k as int]);
                            }
                        }
                        assert(pending@[p as int] == pend0[p as int]);
                    }
                    let v = voxel_map.voxel_map[p];
                    let cur = v.state;
                    if cur.get(ch) != driven_high {
                        let mut w = match pending[p] {
                            Some(w) => Bits16::new(w),
                            None => cur,
                        };
                        if driven_high {
                            w.set(ch);
                        } else {
                            w.clear(ch);
                        }
                        let nw = clamp_state(&v.kind, w);
                        pending[p] = Some(nw.word);
                    }
                    proof {
                        assert(driven_high == driven(s, ch, p as int));
                        assert(carrier(s, ch, p as int));
                        assert(pend0[p as int] == pending_after(s, p as int, ch as int));
                        assert(pending_after(s, p as int, ch + 1) == pending@[p as int]);
                    }
                    k = k + 1;
                }
                proof {
                    assert forall|x: int| 0 <= x < n implies #[trigger] pending@[x] == if visited@[x] {
                        pending_after(s, x, ch + 1)
                    } else {
                        pending_after(s, x, ch as int)
                    } by {
                        if exists|m: int| 0 <= m < comp@.len() && comp@[m] as int == x {
                            let m = choose|m: int| 0 <= m < comp@.len() && comp@[m] as int == x;
                            assert(comp@.contains(x as usize));
                        } else {
                            if comp@.contains(x as usize) {
                                let m = choose|m: int| 0 <= m < comp@.len() && comp@[m] == x as usize;
                                assert(comp@[m] as int == x);
                            }
                        }
                    }
                }
            }
            start = start + 1;
        }
        proof {
            assert forall|k: int| 0 <= k < n implies #[trigger] pending@[k] == pending_after(s, k, ch + 1) by {
                if !visited@[k] {
                    assert(!carrier(s, ch, k));
                }
            }
        }
        ch = ch + 1;
    }
    let mut events: Vec<LogicEvent> = Vec::new();
    let mut i: usize = 0;
    while i < n
        invariant
            i <= n,
            n == s.len(),
            s == voxel_map.voxel_map@,
            pending@.len() == n,
            forall|k: int| 0 <= k < n ==> #[trigger] pending@[k] == pending_after(s, k, 16),
            events@ == propagation_events(s, i as int),
        decreases n - i,
    {
        proof {
            lemma_pending_is_target(s, i as int);
        }
        match pending[i] {
            Some(w) => {
                events.push(
                    LogicEvent::UpdateVoxel {
                        position: voxel_map.voxel_map[i].position,
                        new_state: Bits16::new(w),
                    },
                );
            },
            None => {},
        }
        i = i + 1;
    }
    events
}

} // verus!

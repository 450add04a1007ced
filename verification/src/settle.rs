use vstd::prelude::*;

use crate::bits::{bit, Bits16, lemma_bit_set, lemma_bit_constants};
use crate::logic::{apply_event, apply_events, with_state, is_cable, output_of};
use crate::voxel::{Voxel, VoxelType};
use crate::wires::{
    settle_target, propagation_events, driven, connected, is_path, carrier, linked, fed_at,
    fed_upto, is_source, matches_drive,
};
use crate::world::{positions_distinct, has_voxel, index_of, lemma_index_of_unique};

verus! {

/// The world after every wire took its settle target.
pub open spec fn settled(s: Seq<Voxel>) -> Seq<Voxel> {
    Seq::new(
        s.len(),
        |i: int|
            match settle_target(s, i) {
                Some(w) => with_state(s[i], Bits16 { word: w }),
                None => s[i],
            },
    )
}

/// The world with the first `k` wires at their settle targets.
pub open spec fn settled_upto(s: Seq<Voxel>, k: int) -> Seq<Voxel> {
    Seq::new(
        s.len(),
        |i: int|
            if i < k {
                match settle_target(s, i) {
                    Some(w) => with_state(s[i], Bits16 { word: w }),
                    None => s[i],
                }
            } else {
                s[i]
            },
    )
}

proof fn lemma_apply_prefix(s: Seq<Voxel>, k: int)
    requires
        positions_distinct(s),
        0 <= k <= s.len(),
    ensures
        apply_events(s, propagation_events(s, k)) == settled_upto(s, k),
    decreases k,
{
    if k == 0 {
        assert(settled_upto(s, 0) =~= s);
    } else {
        lemma_apply_prefix(s, k - 1);
        let prev = settled_upto(s, k - 1);
        let evs = propagation_events(s, k);
        match settle_target(s, k - 1) {
            Some(w) => {
                assert(evs.drop_last() == propagation_events(s, k - 1));
                assert(prev.len() == s.len());
                assert forall|a: int, b: int|
                    0 <= a < prev.len() && 0 <= b < prev.len() && a != b implies prev[a].position
                    != prev[b].position by {
                    assert(s[a].position != s[b].position);
                }
                lemma_index_of_unique(prev, k - 1);
                assert(prev[k - 1].position == s[k - 1].position);
                assert(apply_event(prev, evs.last()) =~= settled_upto(s, k));
            },
            None => {
                assert(settled_upto(s, k) =~= prev);
            },
        }
    }
}

/// Applying the updates of a propagation to a world gives the world with
/// every wire at its settle target.
pub proof fn lemma_propagation_applies_settled(s: Seq<Voxel>)
    requires
        positions_distinct(s),
    ensures
        apply_events(s, propagation_events(s, s.len() as int)) == settled(s),
{
    lemma_apply_prefix(s, s.len() as int);
    assert(settled_upto(s, s.len() as int) =~= settled(s));
}

/// Settling changes only the words of wires.
proof fn lemma_settled_layout(s: Seq<Voxel>, i: int)
    requires
        0 <= i < s.len(),
    ensures
        settled(s)[i].kind == s[i].kind,
        settled(s)[i].position == s[i].position,
        settled(s)[i].direction == s[i].direction,
        !is_cable(s[i].kind) ==> settled(s)[i] == s[i],
{
}

/// Settling keeps every carrier link, so it keeps every connection.
proof fn lemma_settled_connected(s: Seq<Voxel>, ch: u8, i: int, j: int)
    ensures
        connected(settled(s), ch, i, j) == connected(s, ch, i, j),
{
    let t = settled(s);
    assert forall|k: int| #[trigger] carrier(t, ch, k) == carrier(s, ch, k) by {
        if 0 <= k < s.len() {
            lemma_settled_layout(s, k);
        }
    }
    assert forall|a: int, b: int| #[trigger] linked(t, ch, a, b) == linked(s, ch, a, b) by {
        if 0 <= a < s.len() && 0 <= b < s.len() {
            lemma_settled_layout(s, a);
            lemma_settled_layout(s, b);
        }
        assert(carrier(t, ch, a) == carrier(s, ch, a));
        assert(carrier(t, ch, b) == carrier(s, ch, b));
    }
    assert forall|p: Seq<int>| #[trigger] is_path(t, ch, p) == is_path(s, ch, p) by {
        if is_path(t, ch, p) {
            assert forall|k: int| 0 <= k < p.len() implies #[trigger] carrier(s, ch, p[k]) by {
                assert(carrier(t, ch, p[k]));
            }
            assert forall|k: int| 0 <= k < p.len() - 1 implies #[trigger] linked(s, ch, p[k], p[k + 1]) by {
                assert(linked(t, ch, p[k], p[k + 1]));
            }
        }
        if is_path(s, ch, p) {
            assert forall|k: int| 0 <= k < p.len() implies #[trigger] carrier(t, ch, p[k]) by {
                assert(carrier(s, ch, p[k]));
            }
            assert forall|k: int| 0 <= k < p.len() - 1 implies #[trigger] linked(t, ch, p[k], p[k + 1]) by {
                assert(linked(s, ch, p[k], p[k + 1]));
            }
        }
    }
    if connected(t, ch, i, j) {
        let p = choose|p: Seq<int>| #[trigger] is_path(t, ch, p) && p[0] == i && p.last() == j;
        assert(is_path(s, ch, p));
    }
    if connected(s, ch, i, j) {
        let p = choose|p: Seq<int>| #[trigger] is_path(s, ch, p) && p[0] == i && p.last() == j;
        assert(is_path(t, ch, p));
    }
}

/// Settling keeps every gate, so it keeps what the gates feed.
proof fn lemma_settled_fed(s: Seq<Voxel>, ch: u8, q: crate::voxel::IVec3)
    ensures
        fed_at(settled(s), q, ch) == fed_at(s, q, ch),
{
    let t = settled(s);
    if fed_at(t, q, ch) {
        let g = choose|g: int|
            0 <= g < t.len() as int && g < t.len() && is_source(t[g]) && output_of(t[g]) == q && #[trigger] bit(t[g].state.word, ch);
        lemma_settled_layout(s, g);
        assert(t[g] == s[g]);
        assert(fed_upto(s, q, ch, s.len() as int));
    }
    if fed_at(s, q, ch) {
        let g = choose|g: int|
            0 <= g < s.len() as int && g < s.len() && is_source(s[g]) && output_of(s[g]) == q && #[trigger] bit(s[g].state.word, ch);
        lemma_settled_layout(s, g);
        assert(t[g] == s[g]);
        assert(fed_upto(t, q, ch, t.len() as int));
    }
}

/// Settling keeps every drive.
proof fn lemma_settled_driven(s: Seq<Voxel>, ch: u8, i: int)
    requires
        0 <= i < s.len(),
    ensures
        driven(settled(s), ch, i) == driven(s, ch, i),
{
    let t = settled(s);
    if driven(t, ch, i) {
        let j = choose|j: int| #[trigger] connected(t, ch, i, j) && fed_at(t, t[j].position, ch);
        lemma_settled_connected(s, ch, i, j);
        let p = choose|p: Seq<int>| #[trigger] is_path(t, ch, p) && p[0] == i && p.last() == j;
        assert(carrier(t, ch, p[p.len() - 1]));
        lemma_settled_layout(s, j);
        lemma_settled_fed(s, ch, s[j].position);
        assert(connected(s, ch, i, j) && fed_at(s, s[j].position, ch));
    }
    if driven(s, ch, i) {
        let j = choose|j: int| #[trigger] connected(s, ch, i, j) && fed_at(s, s[j].position, ch);
        lemma_settled_connected(s, ch, i, j);
        let p = choose|p: Seq<int>| #[trigger] is_path(s, ch, p) && p[0] == i && p.last() == j;
        assert(carrier(s, ch, p[p.len() - 1]));
        lemma_settled_layout(s, j);
        lemma_settled_fed(s, ch, s[j].position);
        assert(connected(t, ch, i, j) && fed_at(t, t[j].position, ch));
    }
}

/// A settled world needs no further wire update.
pub proof fn lemma_settled_is_stable(s: Seq<Voxel>)
    ensures
        forall|i: int| 0 <= i < s.len() ==> #[trigger] settle_target(settled(s), i) is None,
{
    let t = settled(s);
    assert forall|i: int| 0 <= i < s.len() implies #[trigger] settle_target(t, i) is None by {
        lemma_settled_layout(s, i);
        let cur = t[i].state.word;
        match s[i].kind {
            VoxelType::Wire(c) => {
                if c < 16 {
                    lemma_settled_driven(s, c, i);
                    match settle_target(s, i) {
                        Some(w) => {
                            if driven(s, c, i) {
                                lemma_bit_set(0u16, c, c);
                            } else {
                                lemma_bit_constants(c);
                            }
                            assert(bit(cur, c) == driven(t, c, i));
                        },
                        None => {
                            assert(bit(cur, c) == driven(t, c, i));
                        },
                    }
                }
            },
            VoxelType::BundledWire => {
                assert forall|c: u8| c < 16 implies #[trigger] bit(cur, c) == driven(t, c, i) by {
                    lemma_settled_driven(s, c, i);
                    match settle_target(s, i) {
                        Some(w) => {
                            crate::wires::lemma_pending_is_target(s, i);
                            assert(matches_drive(s, i, w));
                            assert(bit(w, c) == driven(s, c, i));
                        },
                        None => {},
                    }
                }
            },
            _ => {},
        }
    }
}

proof fn lemma_no_events(s: Seq<Voxel>, k: int)
    requires
        0 <= k <= s.len(),
        forall|i: int| 0 <= i < s.len() ==> #[trigger] settle_target(s, i) is None,
    ensures
        propagation_events(s, k) == Seq::<crate::logic::LogicEvent>::empty(),
    decreases k,
{
    if k > 0 {
        lemma_no_events(s, k - 1);
        assert(settle_target(s, k - 1) is None);
    }
}

/// Propagation settles the wires in one step: once the updates it returns
/// are applied, propagating again returns no update.
pub proof fn lemma_propagation_idempotent(s: Seq<Voxel>)
    requires
        positions_distinct(s),
    ensures
        propagation_events(
            apply_events(s, propagation_events(s, s.len() as int)),
            s.len() as int,
        ) == Seq::<crate::logic::LogicEvent>::empty(),
{
    lemma_propagation_applies_settled(s);
    lemma_settled_is_stable(s);
    assert(settled(s).len() == s.len());
    lemma_no_events(settled(s), s.len() as int);
}

} // verus!

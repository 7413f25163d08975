//! Flood fills over the grid and chunk-grouping of tower-id sets.

use vstd::prelude::*;
use crate::id::{ChunkId, RelativeTowerId, TowerId};
use crate::player::PlayerId;
use crate::towerset::{TowerSet, WORLD_CELLS, spec_cell_index, lemma_cell_index_injective};

verus! {

broadcast use vstd::seq_lib::lemma_seq_contains_after_push;

/// Radius of the disc materialized and protected around a fresh spawn.
pub const SPAWN_BUBBLE_RADIUS: u16 = 50;

/// Spawn bubble radius for bot players.
pub const BOT_SPAWN_BUBBLE_RADIUS: u16 = 35;

/// The cell lies in the disc of squared radius `r2` around `origin`.
pub open spec fn spec_in_disc(origin: TowerId, r2: int, id: TowerId) -> bool {
    id.spec_distance_squared(origin) <= r2
}

/// The hops walk from `origin` through in-world neighbor steps that stay
/// in the disc.
pub open spec fn spec_disc_path(origin: TowerId, r2: int, p: Seq<TowerId>) -> bool {
    &&& p.len() >= 1
    &&& p[0] == origin
    &&& forall|i: int|
        0 <= i < p.len() ==> (#[trigger] p[i]).in_world() && spec_in_disc(origin, r2, p[i])
    &&& forall|i: int| 0 <= i < p.len() - 1 ==> (#[trigger] p[i]).spec_is_neighbor(p[i + 1])
}

/// The cell can be reached from `origin` by neighbor steps inside the
/// disc.
pub open spec fn spec_bubble_reachable(origin: TowerId, r2: int, id: TowerId) -> bool {
    exists|p: Seq<TowerId>| spec_disc_path(origin, r2, p) && p.last() == id
}

/// One neighbor step inside the disc preserves reachability.
proof fn lemma_reach_step(origin: TowerId, r2: int, id: TowerId, n: TowerId)
    requires
        spec_bubble_reachable(origin, r2, id),
        id.spec_is_neighbor(n),
        spec_in_disc(origin, r2, n),
    ensures
        spec_bubble_reachable(origin, r2, n),
{
    let p = choose|p: Seq<TowerId>| spec_disc_path(origin, r2, p) && p.last() == id;
    let q = p.push(n);
    assert(q.last() == n);
    assert(q[q.len() - 2] == id);
    assert(spec_disc_path(origin, r2, q));
}

/// The collection of distinct in-world cells can hold at most one entry
/// per world cell.
proof fn lemma_distinct_ids_bounded(s: Seq<TowerId>)
    requires
        forall|i: int, j: int| 0 <= i < j < s.len() ==> s[i] != s[j],
        forall|i: int| 0 <= i < s.len() ==> (#[trigger] s[i]).in_world(),
    ensures
        s.len() <= WORLD_CELLS,
{
    let keys = s.map_values(|id: TowerId| spec_cell_index(id));
    assert(keys.no_duplicates()) by {
        assert forall|i: int, j: int|
            0 <= i < keys.len() && 0 <= j < keys.len() && i != j implies keys[i] != keys[j] by {
            lemma_cell_index_injective(s[i], s[j]);
        }
    }
    keys.unique_seq_to_set();
    let range = vstd::set_lib::set_int_range(0, WORLD_CELLS as int);
    assert(keys.to_set().subset_of(range)) by {
        assert forall|x: int| keys.to_set().contains(x) implies range.contains(x) by {
            let i = choose|i: int| 0 <= i < keys.len() && keys[i] == x;
            assert(spec_cell_index(s[i]) == x);
            assert(0 <= x < WORLD_CELLS as int) by (nonlinear_arith)
                requires
                    x == (s[i].y as int) * 1024 + s[i].x as int,
                    s[i].x < 1024,
                    s[i].y < 1024;
        }
    }
    vstd::set_lib::lemma_int_range(0, WORLD_CELLS as int);
    vstd::set_lib::lemma_len_subset(keys.to_set(), range);
}

/// A set of cells that contains the origin and is closed under in-disc
/// neighbor steps contains every cell reachable inside the disc.
pub proof fn lemma_closed_contains_reachable(
    origin: TowerId,
    r2: int,
    s: Seq<TowerId>,
    id: TowerId,
)
    requires
        s.contains(origin),
        forall|a: TowerId, n: TowerId|
            s.contains(a) && #[trigger] a.spec_is_neighbor(n) && spec_in_disc(origin, r2, n)
                ==> s.contains(n),
        spec_bubble_reachable(origin, r2, id),
    ensures
        s.contains(id),
{
    let p = choose|p: Seq<TowerId>| spec_disc_path(origin, r2, p) && p.last() == id;
    lemma_closed_contains_path(origin, r2, s, p);
}

/// Every hop of a disc path lands inside a closed set.
proof fn lemma_closed_contains_path(origin: TowerId, r2: int, s: Seq<TowerId>, p: Seq<TowerId>)
    requires
        s.contains(origin),
        forall|a: TowerId, n: TowerId|
            s.contains(a) && #[trigger] a.spec_is_neighbor(n) && spec_in_disc(origin, r2, n)
                ==> s.contains(n),
        spec_disc_path(origin, r2, p),
    ensures
        s.contains(p.last()),
    decreases p.len(),
{
    if p.len() == 1 {
        assert(p.last() == origin);
    } else {
        let q = p.drop_last();
        assert(spec_disc_path(origin, r2, q)) by {
            assert(forall|i: int| 0 <= i < q.len() ==> q[i] == p[i]);
        }
        lemma_closed_contains_path(origin, r2, s, q);
        assert(q.last() == p[p.len() - 2]);
        assert(p[p.len() - 2].spec_is_neighbor(p[p.len() - 1]));
        assert(spec_in_disc(origin, r2, p.last()));
    }
}

/// Every cell within `radius` of `origin` reachable from it via neighbor
/// steps inside the disc, each exactly once, in visit order. The result
/// contains the origin, holds no cell twice, and is closed under in-disc
/// neighbor steps, so together with
/// [`lemma_closed_contains_reachable`] it visits exactly the reachable
/// disc.
pub fn bubble(origin: TowerId, radius: u16) -> (r: Vec<TowerId>)
    requires
        origin.in_world(),
    ensures
        r@.contains(origin),
        forall|i: int, j: int| 0 <= i < j < r@.len() ==> r@[i] != r@[j],
        forall|i: int|
            0 <= i < r@.len() ==> (#[trigger] r@[i]).in_world() && spec_in_disc(
                origin,
                (radius as int) * (radius as int),
                r@[i],
            ) && spec_bubble_reachable(origin, (radius as int) * (radius as int), r@[i]),
        forall|a: TowerId, n: TowerId|
            r@.contains(a) && #[trigger] a.spec_is_neighbor(n) && spec_in_disc(
                origin,
                (radius as int) * (radius as int),
                n,
            ) ==> r@.contains(n),
{
    let ghost r2 = (radius as int) * (radius as int);
    proof {
        assert((radius as int) * (radius as int) <= 0xFFFF * 0xFFFF) by (nonlinear_arith)
            requires radius as int <= 0xFFFF;
    }
    let rr: u64 = (radius as u64) * (radius as u64);
    let mut seen = TowerSet::with_world_bounds();
    let mut result: Vec<TowerId> = Vec::new();
    let mut work: Vec<TowerId> = Vec::new();
    let _ = seen.insert(origin);
    result.push(origin);
    work.push(origin);
    proof {
        let p = seq![origin];
        assert(p.last() == origin && spec_disc_path(origin, r2, p));
        assert(spec_bubble_reachable(origin, r2, origin));
    }
    while work.len() > 0
        invariant
            origin.in_world(),
            rr == r2,
            seen.wf(),
            seen.spec_contains(origin),
            forall|id: TowerId| seen.spec_contains(id) <==> result@.contains(id),
            forall|i: int, j: int| 0 <= i < j < result@.len() ==> result@[i] != result@[j],
            result@.len() <= WORLD_CELLS,
            forall|i: int|
                0 <= i < result@.len() ==> (#[trigger] result@[i]).in_world() && spec_in_disc(
                    origin,
                    r2,
                    result@[i],
                ) && spec_bubble_reachable(origin, r2, result@[i]),
            forall|i: int| 0 <= i < work@.len() ==> seen.spec_contains(#[trigger] work@[i]),
            forall|i: int, j: int| 0 <= i < j < work@.len() ==> work@[i] != work@[j],
            forall|id: TowerId, n: TowerId|
                seen.spec_contains(id) && !work@.contains(id) && #[trigger] id.spec_is_neighbor(n)
                    && spec_in_disc(origin, r2, n) ==> seen.spec_contains(n),
        decreases 2 * (WORLD_CELLS as int) + 1 - 2 * result@.len() + work@.len(),
    {
        let ghost prev_work = work@;
        let popped = work.pop();
        proof {
            assert(popped is Some);
        }
        let id = popped.unwrap();
        proof {
            assert(prev_work =~= work@.push(id));
            assert(forall|i: int| 0 <= i < work@.len() ==> work@[i] == prev_work[i]);
            assert(seen.spec_contains(id));
            assert(result@.contains(id));
            assert(!work@.contains(id)) by {
                if work@.contains(id) {
                    let i = choose|i: int| 0 <= i < work@.len() && work@[i] == id;
                    assert(prev_work[i] == id && prev_work[prev_work.len() - 1] == id);
                }
            }
            assert(spec_bubble_reachable(origin, r2, id)) by {
                let i = choose|i: int| 0 <= i < result@.len() && result@[i] == id;
            }
        }
        let nbrs = id.neighbors();
        let ghost res0 = result@.len();
        let ghost work0 = work@.len();
        let mut k: usize = 0;
        while k < nbrs.len()
            invariant
                origin.in_world(),
                rr == r2,
                seen.wf(),
                seen.spec_contains(origin),
                id.in_world(),
                seen.spec_contains(id),
                !work@.contains(id),
                spec_bubble_reachable(origin, r2, id),
                k <= nbrs@.len(),
                forall|i: int| 0 <= i < nbrs@.len() ==> id.spec_is_neighbor(#[trigger] nbrs@[i]),
                forall|id2: TowerId| seen.spec_contains(id2) <==> result@.contains(id2),
                forall|i: int, j: int| 0 <= i < j < result@.len() ==> result@[i] != result@[j],
                result@.len() <= WORLD_CELLS,
                result@.len() - res0 == work@.len() - work0,
                result@.len() >= res0,
                forall|i: int|
                    0 <= i < result@.len() ==> (#[trigger] result@[i]).in_world() && spec_in_disc(
                        origin,
                        r2,
                        result@[i],
                    ) && spec_bubble_reachable(origin, r2, result@[i]),
                forall|i: int| 0 <= i < work@.len() ==> seen.spec_contains(#[trigger] work@[i]),
                forall|i: int, j: int| 0 <= i < j < work@.len() ==> work@[i] != work@[j],
                forall|id2: TowerId, n: TowerId|
                    seen.spec_contains(id2) && !work@.contains(id2) && id2 != id
                        && #[trigger] id2.spec_is_neighbor(n) && spec_in_disc(origin, r2, n)
                        ==> seen.spec_contains(n),
                forall|j: int|
                    0 <= j < k ==> (spec_in_disc(origin, r2, #[trigger] nbrs@[j])
                        ==> seen.spec_contains(nbrs@[j])),
            decreases nbrs@.len() - k,
        {
            let n = nbrs[k];
            if n.distance_squared(origin) <= rr {
                let newly = seen.insert(n);
                if newly {
                    proof {
                        lemma_reach_step(origin, r2, id, n);
                    }
                    result.push(n);
                    work.push(n);
                    proof {
                        lemma_distinct_ids_bounded(result@);
                        assert(result@[result@.len() - 1] == n);
                        assert(work@[work@.len() - 1] == n);
                    }
                }
            }
            k = k + 1;
        }
        proof {
            assert forall|j: int|
                0 <= j < nbrs@.len() && spec_in_disc(origin, r2, #[trigger] nbrs@[j])
                implies seen.spec_contains(nbrs@[j]) by {}
            assert forall|id2: TowerId, n: TowerId|
                seen.spec_contains(id2) && !work@.contains(id2) && #[trigger] id2.spec_is_neighbor(
                    n,
                ) && spec_in_disc(origin, r2, n) implies seen.spec_contains(n) by {
                if id2 == id {
                    assert(nbrs@.contains(n));
                    let j = choose|j: int| 0 <= j < nbrs@.len() && nbrs@[j] == n;
                }
            }
        }
    }
    proof {
        assert forall|a: TowerId, n: TowerId|
            result@.contains(a) && #[trigger] a.spec_is_neighbor(n) && spec_in_disc(
                origin,
                r2,
                n,
            ) implies result@.contains(n) by {
            assert(seen.spec_contains(a));
            assert(!work@.contains(a));
            assert(seen.spec_contains(n));
        }
    }
    result
}

/// The radius of a player's spawn bubble: bots always use the narrower
/// radius (widening it for debugging would take conditional compilation).
pub open spec fn spec_spawn_radius(player_id: PlayerId) -> u16 {
    if player_id.spec_is_bot() {
        BOT_SPAWN_BUBBLE_RADIUS
    } else {
        SPAWN_BUBBLE_RADIUS
    }
}

/// Squared spawn-bubble radius of a player.
pub open spec fn spec_spawn_r2(player_id: PlayerId) -> int {
    (spec_spawn_radius(player_id) as int) * (spec_spawn_radius(player_id) as int)
}

/// Every tower in `player_id`'s spawn bubble around `tower_id`: exactly
/// the cells of the spawn-radius disc reachable via in-disc neighbor
/// steps, each once, as [`bubble`] yields them.
pub fn spawn_bubble(tower_id: TowerId, player_id: PlayerId) -> (r: Vec<TowerId>)
    requires
        tower_id.in_world(),
    ensures
        r@.contains(tower_id),
        forall|i: int, j: int| 0 <= i < j < r@.len() ==> r@[i] != r@[j],
        forall|i: int|
            0 <= i < r@.len() ==> (#[trigger] r@[i]).in_world() && spec_in_disc(
                tower_id,
                (spec_spawn_radius(player_id) as int) * (spec_spawn_radius(player_id) as int),
                r@[i],
            ) && spec_bubble_reachable(
                tower_id,
                (spec_spawn_radius(player_id) as int) * (spec_spawn_radius(player_id) as int),
                r@[i],
            ),
        forall|a: TowerId, n: TowerId|
            r@.contains(a) && #[trigger] a.spec_is_neighbor(n) && spec_in_disc(
                tower_id,
                (spec_spawn_radius(player_id) as int) * (spec_spawn_radius(player_id) as int),
                n,
            ) ==> r@.contains(n),
{
    let radius = if player_id.is_bot() {
        BOT_SPAWN_BUBBLE_RADIUS
    } else {
        SPAWN_BUBBLE_RADIUS
    };
    bubble(tower_id, radius)
}

/// The relative ids of the inputs among the first `k` that fall in chunk
/// `c`, in input order.
pub open spec fn spec_chunk_rels(ids: Seq<TowerId>, c: ChunkId, k: int) -> Seq<RelativeTowerId>
    decreases k,
{
    if k <= 0 {
        Seq::empty()
    } else {
        spec_chunk_rels(ids, c, k - 1) + (if ids[k - 1].spec_chunk() == c {
            seq![ids[k - 1].spec_rel()]
        } else {
            Seq::empty()
        })
    }
}

/// Some input id falls in the chunk.
pub open spec fn spec_chunk_of_inputs(ids: Seq<TowerId>, c: ChunkId) -> bool {
    exists|q: int| 0 <= q < ids.len() && (#[trigger] ids[q]).spec_chunk() == c
}

/// Some bucket of the grouping carries the chunk.
pub open spec fn spec_chunk_listed(r: Seq<(ChunkId, Vec<RelativeTowerId>)>, c: ChunkId) -> bool {
    exists|a: int| 0 <= a < r.len() && (#[trigger] r[a]).0 == c
}

/// Extending a grouping keeps every listed chunk listed.
proof fn lemma_chunk_listed_extend(
    prev: Seq<(ChunkId, Vec<RelativeTowerId>)>,
    cur: Seq<(ChunkId, Vec<RelativeTowerId>)>,
    c: ChunkId,
)
    requires
        spec_chunk_listed(prev, c),
        prev.len() <= cur.len(),
        forall|b: int| 0 <= b < prev.len() ==> cur[b] == prev[b],
    ensures
        spec_chunk_listed(cur, c),
{
    let a = choose|a: int| 0 <= a < prev.len() && (#[trigger] prev[a]).0 == c;
    assert(cur[a].0 == c);
}

/// Buckets the tower ids by their owning chunk for batched dispatch:
/// one entry per chunk that owns at least one of the ids, holding every
/// matching id relative to that chunk.
pub fn group(tower_ids: &Vec<TowerId>) -> (r: Vec<(ChunkId, Vec<RelativeTowerId>)>)
    requires
        forall|i: int| 0 <= i < tower_ids@.len() ==> (#[trigger] tower_ids@[i]).in_world(),
    ensures
        forall|a: int, b: int| 0 <= a < b < r@.len() ==> r@[a].0 != r@[b].0,
        forall|a: int, q: int|
            0 <= a < r@.len() && 0 <= q < tower_ids@.len() && (
            #[trigger] tower_ids@[q]).spec_chunk() == (#[trigger] r@[a]).0 ==> r@[a].1@.contains(tower_ids@[q].spec_rel()),
        forall|q: int|
            0 <= q < tower_ids@.len() ==> spec_chunk_listed(
                r@,
                (#[trigger] tower_ids@[q]).spec_chunk(),
            ),
        forall|a: int|
            0 <= a < r@.len() ==> (#[trigger] r@[a]).1@ == spec_chunk_rels(
                tower_ids@,
                r@[a].0,
                tower_ids@.len() as int,
            ),
        forall|a: int| 0 <= a < r@.len() ==> (#[trigger] r@[a]).1@.len() > 0,
        forall|a: int|
            0 <= a < r@.len() ==> spec_chunk_of_inputs(tower_ids@, (#[trigger] r@[a]).0),
{
    let mut r: Vec<(ChunkId, Vec<RelativeTowerId>)> = Vec::new();
    let mut i: usize = 0;
    while i < tower_ids.len()
        invariant
            forall|q: int| 0 <= q < tower_ids@.len() ==> (#[trigger] tower_ids@[q]).in_world(),
            i <= tower_ids@.len(),
            forall|a: int, b: int| 0 <= a < b < r@.len() ==> r@[a].0 != r@[b].0,
            forall|a: int, q: int|
                0 <= a < r@.len() && 0 <= q < tower_ids@.len() && (
                #[trigger] tower_ids@[q]).spec_chunk() == (#[trigger] r@[a]).0
                    ==> r@[a].1@.contains(tower_ids@[q].spec_rel()),
            forall|q: int|
                0 <= q < i ==> spec_chunk_listed(r@, (#[trigger] tower_ids@[q]).spec_chunk()),
            forall|a: int|
                0 <= a < r@.len() ==> (#[trigger] r@[a]).1@ == spec_chunk_rels(
                    tower_ids@,
                    r@[a].0,
                    tower_ids@.len() as int,
                ),
            forall|a: int| 0 <= a < r@.len() ==> (#[trigger] r@[a]).1@.len() > 0,
            forall|a: int|
                0 <= a < r@.len() ==> spec_chunk_of_inputs(tower_ids@, (#[trigger] r@[a]).0),
        decreases tower_ids@.len() - i,
    {
        let id = tower_ids[i];
        let (chunk, _rel) = id.split();
        let mut a: usize = 0;
        let mut present = false;
        while a < r.len()
            invariant
                a <= r@.len(),
                present ==> spec_chunk_listed(r@, chunk),
                !present ==> forall|b: int| 0 <= b < a ==> (#[trigger] r@[b]).0 != chunk,
            decreases r@.len() - a,
        {
            if r[a].0 == chunk {
                present = true;
            }
            a = a + 1;
        }
        if !present {
            let mut bucket: Vec<RelativeTowerId> = Vec::new();
            let mut q: usize = 0;
            while q < tower_ids.len()
                invariant
                    forall|p: int|
                        0 <= p < tower_ids@.len() ==> (#[trigger] tower_ids@[p]).in_world(),
                    q <= tower_ids@.len(),
                    forall|p: int|
                        0 <= p < q && (#[trigger] tower_ids@[p]).spec_chunk() == chunk
                            ==> bucket@.contains(tower_ids@[p].spec_rel()),
                    bucket@ =~= spec_chunk_rels(tower_ids@, chunk, q as int),
                decreases tower_ids@.len() - q,
            {
                let other = tower_ids[q];
                let (ochunk, orel) = other.split();
                if ochunk == chunk {
                    bucket.push(orel);
                }
                proof {
                    assert(bucket@ =~= spec_chunk_rels(tower_ids@, chunk, q as int + 1));
                }
                q = q + 1;
            }
            let ghost prevr = r@;
            proof {
                assert(bucket@.contains(tower_ids@[i as int].spec_rel()));
            }
            r.push((chunk, bucket));
            proof {
                let last = r@.len() - 1;
                assert(r@[last].0 == chunk && r@[last].1 == bucket);
                assert(tower_ids@[i as int].spec_chunk() == r@[last].0);
                assert(spec_chunk_of_inputs(tower_ids@, r@[last].0));
                assert(forall|b: int| 0 <= b < last ==> r@[b] == prevr[b]);
                assert(spec_chunk_listed(r@, chunk));
                assert forall|q2: int| 0 <= q2 < i + 1 implies spec_chunk_listed(
                    r@,
                    (#[trigger] tower_ids@[q2]).spec_chunk(),
                ) by {
                    if q2 < i {
                        lemma_chunk_listed_extend(prevr, r@, tower_ids@[q2].spec_chunk());
                    }
                }
            }
        }
        i = i + 1;
    }
    r
}

} // verus!

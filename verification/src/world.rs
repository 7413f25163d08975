//! The world's tower map: materialized towers keyed by coordinate, and
//! path validation against it.

use vstd::prelude::*;
use crate::id::TowerId;
use crate::math::lemma_sq_mono;
use crate::path::{Path, TowerError};
use crate::tower::Tower;
use crate::unit::DEFAULT_EDGE_DISTANCE;

verus! {

/// Some entry of `s` has the key `id`.
pub open spec fn spec_seq_has(s: Seq<(TowerId, Tower)>, id: TowerId) -> bool {
    exists|i: int| 0 <= i < s.len() && (#[trigger] s[i]).0 == id
}

/// The value stored under the key `id`; meaningful while keys are
/// distinct.
pub open spec fn spec_seq_get(s: Seq<(TowerId, Tower)>, id: TowerId) -> Option<Tower> {
    if spec_seq_has(s, id) {
        let i = choose|i: int| 0 <= i < s.len() && (#[trigger] s[i]).0 == id;
        Some(s[i].1)
    } else {
        None
    }
}

/// The materialized towers of the world, keyed by coordinate.
pub struct World {
    pub towers: Vec<(TowerId, Tower)>,
}

impl World {
    /// Keys are distinct in-world coordinates and every tower is well
    /// formed.
    pub open spec fn wf(self) -> bool {
        &&& forall|i: int, j: int|
            0 <= i < j < self.towers@.len() ==> (#[trigger] self.towers@[i]).0 != (
            #[trigger] self.towers@[j]).0
        &&& forall|i: int|
            0 <= i < self.towers@.len() ==> (#[trigger] self.towers@[i]).0.in_world()
                && self.towers@[i].1.wf()
    }

    /// A coordinate is materialized.
    pub open spec fn spec_has_tower(self, id: TowerId) -> bool {
        spec_seq_has(self.towers@, id)
    }

    /// The tower materialized at a coordinate.
    pub open spec fn spec_get_tower(self, id: TowerId) -> Option<Tower> {
        spec_seq_get(self.towers@, id)
    }

    /// An empty world.
    pub fn new() -> (r: World)
        ensures
            r.wf(),
            forall|id: TowerId| !r.spec_has_tower(id),
            r.towers@.len() == 0,
    {
        World { towers: Vec::new() }
    }

    /// The index of the tower materialized at a coordinate.
    fn find(&self, id: TowerId) -> (r: Option<usize>)
        requires
            self.wf(),
        ensures
            r matches Some(k) ==> k < self.towers@.len() && self.towers@[k as int].0 == id
                && self.spec_get_tower(id) == Some(self.towers@[k as int].1),
            r is None ==> !self.spec_has_tower(id),
    {
        let mut k: usize = 0;
        while k < self.towers.len()
            invariant
                self.wf(),
                k <= self.towers@.len(),
                forall|j: int| 0 <= j < k ==> (#[trigger] self.towers@[j]).0 != id,
            decreases self.towers@.len() - k,
        {
            if self.towers[k].0 == id {
                proof {
                    assert(self.spec_has_tower(id));
                    let i = choose|i: int|
                        0 <= i < self.towers@.len() && (#[trigger] self.towers@[i]).0 == id;
                    assert(i == k);
                }
                return Some(k);
            }
            k = k + 1;
        }
        None
    }

    /// The tower materialized at a coordinate.
    pub fn get(&self, id: TowerId) -> (r: Option<&Tower>)
        requires
            self.wf(),
        ensures
            match r {
                Some(t) => self.spec_get_tower(id) == Some(*t),
                None => self.spec_get_tower(id) is None && !self.spec_has_tower(id),
            },
    {
        match self.find(id) {
            Some(k) => Some(&self.towers[k].1),
            None => None,
        }
    }

    /// A coordinate is materialized.
    pub fn contains(&self, id: TowerId) -> (r: bool)
        requires
            self.wf(),
        ensures
            r == self.spec_has_tower(id),
    {
        self.find(id).is_some()
    }

    /// Materializes or replaces the tower at a coordinate.
    pub fn insert(&mut self, id: TowerId, tower: Tower)
        requires
            old(self).wf(),
            id.in_world(),
            tower.wf(),
        ensures
            final(self).wf(),
            final(self).spec_get_tower(id) == Some(tower),
            final(self).spec_has_tower(id),
            forall|o: TowerId|
                o != id ==> final(self).spec_get_tower(o) == old(self).spec_get_tower(o),
            forall|o: TowerId|
                o != id ==> final(self).spec_has_tower(o) == old(self).spec_has_tower(o),
    {
        let found = self.find(id);
        let ghost prev = self.towers@;
        let ghost kg: int = match found {
            Some(k) => k as int,
            None => prev.len() as int,
        };
        match found {
            Some(k) => {
                self.towers.set(k, (id, tower));
            }
            None => {
                self.towers.push((id, tower));
            }
        }
        proof {
            let cur = self.towers@;
            assert(cur[kg].0 == id && cur[kg].1 == tower);
            assert(forall|j: int| 0 <= j < cur.len() && j != kg ==> cur[j] == prev[j]);
            assert(spec_seq_has(cur, id));
            let i = choose|i: int| 0 <= i < cur.len() && (#[trigger] cur[i]).0 == id;
            if i != kg {
                assert(prev[i].0 == id);
                assert(found is Some);
                assert(false);
            }
            assert(final(self).spec_get_tower(id) == Some(tower));
            assert forall|o: TowerId| o != id implies final(self).spec_get_tower(o) == old(
                self,
            ).spec_get_tower(o) && final(self).spec_has_tower(o) == old(self).spec_has_tower(
                o,
            ) by {
                if spec_seq_has(prev, o) {
                    let a = choose|a: int| 0 <= a < prev.len() && (#[trigger] prev[a]).0 == o;
                    if a == kg {
                        assert(found is Some && prev[kg].0 == id);
                        assert(false);
                    }
                    assert(cur[a].0 == o);
                    assert(spec_seq_has(cur, o));
                    let b = choose|b: int| 0 <= b < cur.len() && (#[trigger] cur[b]).0 == o;
                    if b == kg {
                        assert(false);
                    }
                    assert(prev[b].0 == o);
                    assert(a == b);
                } else {
                    if spec_seq_has(cur, o) {
                        let b = choose|b: int| 0 <= b < cur.len() && (#[trigger] cur[b]).0 == o;
                        assert(b != kg);
                        assert(prev[b].0 == o);
                        assert(false);
                    }
                }
            }
        }
    }

    /// Removes the tower at a coordinate, if one is materialized.
    pub fn remove(&mut self, id: TowerId)
        requires
            old(self).wf(),
        ensures
            final(self).wf(),
            !final(self).spec_has_tower(id),
            forall|o: TowerId|
                o != id ==> final(self).spec_get_tower(o) == old(self).spec_get_tower(o),
            forall|o: TowerId|
                o != id ==> final(self).spec_has_tower(o) == old(self).spec_has_tower(o),
    {
        let _ = self.take(id);
    }

    /// Removes and returns the tower at a coordinate, if one is
    /// materialized.
    pub fn take(&mut self, id: TowerId) -> (r: Option<Tower>)
        requires
            old(self).wf(),
        ensures
            final(self).wf(),
            r == old(self).spec_get_tower(id),
            !final(self).spec_has_tower(id),
            forall|o: TowerId|
                o != id ==> final(self).spec_get_tower(o) == old(self).spec_get_tower(o),
            forall|o: TowerId|
                o != id ==> final(self).spec_has_tower(o) == old(self).spec_has_tower(o),
    {
        let found = self.find(id);
        let ghost prev = self.towers@;
        if let Some(k) = found {
            let entry = self.towers.remove(k);
            proof {
                let cur = self.towers@;
                let kg = k as int;
                assert(cur =~= prev.subrange(0, kg) + prev.subrange(kg + 1, prev.len() as int));
                assert(forall|j: int| 0 <= j < kg ==> cur[j] == prev[j]);
                assert(forall|j: int| kg <= j < cur.len() ==> cur[j] == prev[j + 1]);
                assert forall|i: int, j: int|
                    0 <= i < j < cur.len() implies (#[trigger] cur[i]).0 != (
                #[trigger] cur[j]).0 by {
                    let pi: int = if i < kg {
                        i
                    } else {
                        i + 1
                    };
                    let pj: int = if j < kg {
                        j
                    } else {
                        j + 1
                    };
                    assert(cur[i] == prev[pi] && cur[j] == prev[pj] && pi < pj);
                }
                if spec_seq_has(cur, id) {
                    let b = choose|b: int| 0 <= b < cur.len() && (#[trigger] cur[b]).0 == id;
                    let pb: int = if b < kg {
                        b
                    } else {
                        b + 1
                    };
                    assert(prev[pb].0 == id && pb != kg && prev[kg].0 == id);
                    assert(false);
                }
                assert forall|o: TowerId| o != id implies final(self).spec_get_tower(o) == old(
                    self,
                ).spec_get_tower(o) && final(self).spec_has_tower(o) == old(self).spec_has_tower(
                    o,
                ) by {
                    if spec_seq_has(prev, o) {
                        let a = choose|a: int| 0 <= a < prev.len() && (#[trigger] prev[a]).0 == o;
                        let ca: int = if a < kg {
                            a
                        } else {
                            a - 1
                        };
                        assert(a != kg);
                        assert(cur[ca].0 == o);
                        assert(spec_seq_has(cur, o));
                        let b = choose|b: int| 0 <= b < cur.len() && (#[trigger] cur[b]).0 == o;
                        let pb: int = if b < kg {
                            b
                        } else {
                            b + 1
                        };
                        assert(prev[pb].0 == o);
                        assert(pb == a);
                        assert(cur[b] == prev[a]);
                    } else {
                        if spec_seq_has(cur, o) {
                            let b = choose|b: int|
                                0 <= b < cur.len() && (#[trigger] cur[b]).0 == o;
                            let pb: int = if b < kg {
                                b
                            } else {
                                b + 1
                            };
                            assert(prev[pb].0 == o);
                            assert(false);
                        }
                    }
                }
            }
            return Some(entry.1);
        }
        None
    }
}

/// The longest edge a path may take, in world units: the caller's limit or
/// the walking default.
pub open spec fn spec_edge_limit(max_edge: Option<u32>) -> int {
    match max_edge {
        Some(d) => d as int,
        None => DEFAULT_EDGE_DISTANCE as int,
    }
}

/// The jittered centers of `a` and `b` are at most `limit` world units
/// apart, measured by the rounded-down Euclidean distance.
pub open spec fn spec_edge_ok(a: TowerId, b: TowerId, limit: int) -> bool {
    a.spec_position_dist_sq(b) < (limit + 1) * (limit + 1)
}

/// The hops form a canonical path: they start at the source, every hop is
/// a materialized in-world tower, and every edge is within the limit.
pub open spec fn spec_valid_path(
    world: World,
    hops: Seq<TowerId>,
    source: TowerId,
    limit: int,
) -> bool {
    &&& hops.len() >= 1
    &&& hops[0] == source
    &&& forall|i: int|
        0 <= i < hops.len() ==> (#[trigger] hops[i]).in_world() && world.spec_has_tower(hops[i])
    &&& forall|i: int| 0 <= i < hops.len() - 1 ==> spec_edge_ok(#[trigger] hops[i], hops[i + 1], limit)
}

impl Path {
    /// Validates the path against the world: it must start at `source`,
    /// visit only materialized in-world towers, and keep every edge within
    /// `max_edge_distance` world units (the walking default if none).
    /// Returns the canonical path, or an error on any violation.
    #[verifier::rlimit(60)]
    pub fn validate(&self, world: &World, source: TowerId, max_edge_distance: Option<u32>) -> (r:
        Result<Path, TowerError>)
        requires
            world.wf(),
        ensures
            r is Ok <==> spec_valid_path(
                *world,
                self.hops@,
                source,
                spec_edge_limit(max_edge_distance),
            ),
            r matches Ok(p) ==> p.hops@ == self.hops@,
            r matches Err(e) ==> e == TowerError::InvalidPath,
    {
        let limit: u32 = match max_edge_distance {
            Some(d) => d,
            None => DEFAULT_EDGE_DISTANCE,
        };
        if self.hops.len() == 0 {
            return Err(TowerError::InvalidPath);
        }
        if !(self.hops[0] == source) {
            return Err(TowerError::InvalidPath);
        }
        let ghost lim = spec_edge_limit(max_edge_distance);
        let mut k: usize = 0;
        while k < self.hops.len()
            invariant
                world.wf(),
                self.hops@.len() >= 1,
                k <= self.hops@.len(),
                limit as int == lim,
                lim == spec_edge_limit(max_edge_distance),
                forall|i: int|
                    0 <= i < k ==> (#[trigger] self.hops@[i]).in_world() && world.spec_has_tower(
                        self.hops@[i],
                    ),
                forall|i: int| 0 <= i < k - 1 ==> spec_edge_ok(#[trigger] self.hops@[i], self.hops@[i + 1], lim),
            decreases self.hops@.len() - k,
        {
            let hop = self.hops[k];
            proof {
                assert(self.hops@[k as int] == hop);
            }
            if !(hop.x < crate::id::WORLD_SIZE && hop.y < crate::id::WORLD_SIZE) {
                proof {
                    assert(!hop.in_world());
                    assert(!spec_valid_path(*world, self.hops@, source, lim));
                }
                return Err(TowerError::InvalidPath);
            }
            if world.get(hop).is_none() {
                proof {
                    assert(!world.spec_has_tower(hop));
                    assert(!spec_valid_path(*world, self.hops@, source, lim));
                }
                return Err(TowerError::InvalidPath);
            }
            if k > 0 {
                let prev = self.hops[k - 1];
                let d = prev.distance(hop);
                if d > limit {
                    proof {
                        lemma_sq_mono(lim + 1, d as int);
                        assert(!spec_edge_ok(self.hops@[k as int - 1], self.hops@[k as int], lim));
                        assert(!spec_valid_path(*world, self.hops@, source, lim)) by {
                            if spec_valid_path(*world, self.hops@, source, lim) {
                                assert(0 <= k as int - 1 < self.hops@.len() - 1);
                                assert(spec_edge_ok(
                                    self.hops@[k as int - 1],
                                    self.hops@[k as int - 1 + 1],
                                    lim,
                                ));
                            }
                        }
                    }
                    return Err(TowerError::InvalidPath);
                }
                proof {
                    lemma_sq_mono(d as int + 1, lim + 1);
                    assert(spec_edge_ok(self.hops@[k as int - 1], self.hops@[k as int], lim));
                }
            }
            k = k + 1;
        }
        Ok(Path { hops: self.hops.clone() })
    }
}

} // verus!

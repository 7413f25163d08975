//! A set of tower coordinates over the whole world rectangle.

use vstd::prelude::*;
use crate::id::{TowerId, WORLD_SIZE};

verus! {

/// Number of cells in the world.
pub const WORLD_CELLS: usize = 1048576;

/// A set of in-world tower coordinates, one slot per world cell.
pub struct TowerSet {
    pub cells: Vec<bool>,
}

/// The slot index of a coordinate in a [`TowerSet`].
pub open spec fn spec_cell_index(id: TowerId) -> int {
    (id.y as int) * (WORLD_SIZE as int) + id.x as int
}

/// In-world coordinates occupy distinct slots.
pub proof fn lemma_cell_index_injective(a: TowerId, b: TowerId)
    requires
        a.in_world(),
        b.in_world(),
        a != b,
    ensures
        spec_cell_index(a) != spec_cell_index(b),
{
    if a.y == b.y {
        assert(a.x != b.x);
    } else {
        assert(spec_cell_index(a) != spec_cell_index(b)) by (nonlinear_arith)
            requires
                a.x < 1024,
                b.x < 1024,
                a.y < 1024,
                b.y < 1024,
                a.y != b.y,
                spec_cell_index(a) == (a.y as int) * 1024 + a.x as int,
                spec_cell_index(b) == (b.y as int) * 1024 + b.x as int;
    }
}

impl TowerSet {
    /// One slot per world cell.
    pub open spec fn wf(self) -> bool {
        self.cells@.len() == WORLD_CELLS
    }

    /// The set holds the coordinate.
    pub open spec fn spec_contains(self, id: TowerId) -> bool {
        id.in_world() && self.cells@[spec_cell_index(id)]
    }

    /// The mathematical set of held coordinates.
    pub open spec fn spec_as_set(self) -> Set<TowerId> {
        Set::new(|id: TowerId| self.spec_contains(id))
    }

    /// The empty set over the world rectangle.
    pub fn with_world_bounds() -> (r: TowerSet)
        ensures
            r.wf(),
            forall|id: TowerId| !r.spec_contains(id),
    {
        let mut cells: Vec<bool> = Vec::new();
        let mut k: usize = 0;
        while k < WORLD_CELLS
            invariant
                k <= WORLD_CELLS,
                cells@.len() == k,
                forall|j: int| 0 <= j < k ==> !cells@[j],
            decreases WORLD_CELLS - k,
        {
            cells.push(false);
            k = k + 1;
        }
        TowerSet { cells }
    }

    /// The set holds the coordinate.
    pub fn contains(&self, id: TowerId) -> (r: bool)
        requires
            self.wf(),
        ensures
            r == self.spec_contains(id),
    {
        if id.x < WORLD_SIZE && id.y < WORLD_SIZE {
            let index = (id.y as usize) * (WORLD_SIZE as usize) + id.x as usize;
            proof {
                assert(index == spec_cell_index(id) && index < WORLD_CELLS) by (nonlinear_arith)
                    requires
                        id.x < 1024,
                        id.y < 1024,
                        index == (id.y as int) * 1024 + id.x as int,
                        spec_cell_index(id) == (id.y as int) * 1024 + id.x as int;
            }
            self.cells[index]
        } else {
            false
        }
    }

    /// Adds the coordinate; reports whether it was newly inserted.
    pub fn insert(&mut self, id: TowerId) -> (r: bool)
        requires
            old(self).wf(),
            id.in_world(),
        ensures
            final(self).wf(),
            r == !old(self).spec_contains(id),
            final(self).spec_contains(id),
            forall|o: TowerId|
                o != id ==> final(self).spec_contains(o) == old(self).spec_contains(o),
    {
        let index = (id.y as usize) * (WORLD_SIZE as usize) + id.x as usize;
        proof {
            assert(index == spec_cell_index(id) && index < WORLD_CELLS) by (nonlinear_arith)
                requires
                    id.x < 1024,
                    id.y < 1024,
                    index == (id.y as int) * 1024 + id.x as int,
                    spec_cell_index(id) == (id.y as int) * 1024 + id.x as int;
        }
        let present = self.cells[index];
        self.cells.set(index, true);
        proof {
            assert forall|o: TowerId| o != id implies final(self).spec_contains(o) == old(
                self,
            ).spec_contains(o) by {
                if o.in_world() {
                    lemma_cell_index_injective(o, id);
                }
            }
        }
        !present
    }
}

} // verus!

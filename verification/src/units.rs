//! A bag of units: per-kind counts with capacity-aware operations.

use vstd::prelude::*;
use crate::tower_type::TowerType;
use crate::unit::{Unit, DEFAULT_EDGE_DISTANCE};

verus! {

broadcast use vstd::seq_lib::lemma_seq_contains_after_push;

/// Extra `Shield` capacity a tower gains while a ruler occupies it.
pub const RULER_SHIELD_BOOST: u8 = 10;

/// A bag mapping each unit kind to a count.
#[derive(Copy, Clone, PartialEq, Eq, Structural, Hash, Debug)]
pub struct Units {
    pub soldier: u8,
    pub tank: u8,
    pub fighter: u8,
    pub bomber: u8,
    pub chopper: u8,
    pub frigate: u8,
    pub submarine: u8,
    pub shell: u8,
    pub emp: u8,
    pub nuke: u8,
    pub shield: u8,
    pub ruler: u8,
}

impl Default for Units {
    /// The empty bag.
    fn default() -> (r: Units)
        ensures
            forall|u: Unit| r.spec_get(u) == 0,
    {
        Units {
            soldier: 0,
            tank: 0,
            fighter: 0,
            bomber: 0,
            chopper: 0,
            frigate: 0,
            submarine: 0,
            shell: 0,
            emp: 0,
            nuke: 0,
            shield: 0,
            ruler: 0,
        }
    }
}

impl Units {
    /// Count of the given unit kind in the bag.
    pub open spec fn spec_get(self, unit: Unit) -> u8 {
        match unit {
            Unit::Soldier => self.soldier,
            Unit::Tank => self.tank,
            Unit::Fighter => self.fighter,
            Unit::Bomber => self.bomber,
            Unit::Chopper => self.chopper,
            Unit::Frigate => self.frigate,
            Unit::Submarine => self.submarine,
            Unit::Shell => self.shell,
            Unit::Emp => self.emp,
            Unit::Nuke => self.nuke,
            Unit::Shield => self.shield,
            Unit::Ruler => self.ruler,
        }
    }

    /// Count of the given unit kind available in the bag.
    pub fn available(&self, unit: Unit) -> (r: u8)
        ensures
            r == self.spec_get(unit),
    {
        match unit {
            Unit::Soldier => self.soldier,
            Unit::Tank => self.tank,
            Unit::Fighter => self.fighter,
            Unit::Bomber => self.bomber,
            Unit::Chopper => self.chopper,
            Unit::Frigate => self.frigate,
            Unit::Submarine => self.submarine,
            Unit::Shell => self.shell,
            Unit::Emp => self.emp,
            Unit::Nuke => self.nuke,
            Unit::Shield => self.shield,
            Unit::Ruler => self.ruler,
        }
    }

    /// The bag with the count of `unit` replaced by `v`.
    pub open spec fn spec_set(self, unit: Unit, v: u8) -> Units {
        match unit {
            Unit::Soldier => Units { soldier: v, ..self },
            Unit::Tank => Units { tank: v, ..self },
            Unit::Fighter => Units { fighter: v, ..self },
            Unit::Bomber => Units { bomber: v, ..self },
            Unit::Chopper => Units { chopper: v, ..self },
            Unit::Frigate => Units { frigate: v, ..self },
            Unit::Submarine => Units { submarine: v, ..self },
            Unit::Shell => Units { shell: v, ..self },
            Unit::Emp => Units { emp: v, ..self },
            Unit::Nuke => Units { nuke: v, ..self },
            Unit::Shield => Units { shield: v, ..self },
            Unit::Ruler => Units { ruler: v, ..self },
        }
    }

    /// Replaces the count of `unit` by `v`.
    pub fn set(&mut self, unit: Unit, v: u8)
        ensures
            *final(self) == old(self).spec_set(unit, v),
            final(self).spec_get(unit) == v,
            forall|o: Unit| o != unit ==> final(self).spec_get(o) == old(self).spec_get(o),
    {
        match unit {
            Unit::Soldier => self.soldier = v,
            Unit::Tank => self.tank = v,
            Unit::Fighter => self.fighter = v,
            Unit::Bomber => self.bomber = v,
            Unit::Chopper => self.chopper = v,
            Unit::Frigate => self.frigate = v,
            Unit::Submarine => self.submarine = v,
            Unit::Shell => self.shell = v,
            Unit::Emp => self.emp = v,
            Unit::Nuke => self.nuke = v,
            Unit::Shield => self.shield = v,
            Unit::Ruler => self.ruler = v,
        }
    }

    /// Adds `count` units of the given kind, saturating at the count limit.
    pub fn add(&mut self, unit: Unit, count: u8)
        ensures
            final(self).spec_get(unit) == if old(self).spec_get(unit) + count <= u8::MAX {
                old(self).spec_get(unit) + count
            } else {
                u8::MAX as int
            },
            forall|o: Unit| o != unit ==> final(self).spec_get(o) == old(self).spec_get(o),
    {
        let current = self.available(unit);
        if count <= u8::MAX - current {
            self.set(unit, current + count);
        } else {
            self.set(unit, u8::MAX);
        }
    }

    /// Removes up to `count` units of the given kind; returns how many were
    /// actually removed.
    pub fn subtract(&mut self, unit: Unit, count: u8) -> (r: u8)
        ensures
            r == if count <= old(self).spec_get(unit) {
                count as int
            } else {
                old(self).spec_get(unit) as int
            },
            final(self).spec_get(unit) == old(self).spec_get(unit) - r,
            forall|o: Unit| o != unit ==> final(self).spec_get(o) == old(self).spec_get(o),
    {
        let current = self.available(unit);
        let removed = if count <= current {
            count
        } else {
            current
        };
        self.set(unit, current - removed);
        removed
    }

    /// The bag holds at least one unit of the given kind.
    pub fn contains(&self, unit: Unit) -> (r: bool)
        ensures
            r == (self.spec_get(unit) > 0),
    {
        self.available(unit) > 0
    }

    /// The bag holds a ruler.
    pub open spec fn spec_has_ruler(self) -> bool {
        self.spec_get(Unit::Ruler) > 0
    }

    /// The bag holds a ruler.
    pub fn has_ruler(&self) -> (r: bool)
        ensures
            r == self.spec_has_ruler(),
    {
        self.ruler > 0
    }

    /// The bag holds no units at all.
    pub open spec fn spec_is_empty(self) -> bool {
        forall|u: Unit| self.spec_get(u) == 0
    }

    /// The bag holds no units at all.
    pub fn is_empty(&self) -> (r: bool)
        ensures
            r == self.spec_is_empty(),
    {
        let r = self.soldier == 0 && self.tank == 0 && self.fighter == 0 && self.bomber == 0
            && self.chopper == 0 && self.frigate == 0 && self.submarine == 0 && self.shell == 0
            && self.emp == 0 && self.nuke == 0 && self.shield == 0 && self.ruler == 0;
        proof {
            if r {
                assert forall|u: Unit| self.spec_get(u) == 0 by {}
            } else {
                assert(!self.spec_is_empty()) by {
                    if self.soldier != 0 {
                        assert(self.spec_get(Unit::Soldier) != 0);
                    } else if self.tank != 0 {
                        assert(self.spec_get(Unit::Tank) != 0);
                    } else if self.fighter != 0 {
                        assert(self.spec_get(Unit::Fighter) != 0);
                    } else if self.bomber != 0 {
                        assert(self.spec_get(Unit::Bomber) != 0);
                    } else if self.chopper != 0 {
                        assert(self.spec_get(Unit::Chopper) != 0);
                    } else if self.frigate != 0 {
                        assert(self.spec_get(Unit::Frigate) != 0);
                    } else if self.submarine != 0 {
                        assert(self.spec_get(Unit::Submarine) != 0);
                    } else if self.shell != 0 {
                        assert(self.spec_get(Unit::Shell) != 0);
                    } else if self.emp != 0 {
                        assert(self.spec_get(Unit::Emp) != 0);
                    } else if self.nuke != 0 {
                        assert(self.spec_get(Unit::Nuke) != 0);
                    } else if self.shield != 0 {
                        assert(self.spec_get(Unit::Shield) != 0);
                    } else {
                        assert(self.spec_get(Unit::Ruler) != 0);
                    }
                }
            }
        }
        r
    }

    /// The nonzero entries of the bag, in unit iteration order.
    pub fn iter(&self) -> (r: Vec<(Unit, u8)>)
        ensures
            forall|i: int|
                0 <= i < r@.len() ==> self.spec_get(#[trigger] r@[i].0) == r@[i].1 && r@[i].1 > 0,
            forall|u: Unit| self.spec_get(u) > 0 ==> r@.contains((u, self.spec_get(u))),
            forall|i: int, j: int| 0 <= i < j < r@.len() ==> r@[i].0 != r@[j].0,
    {
        let all = Unit::iter();
        let mut r: Vec<(Unit, u8)> = Vec::new();
        let mut k: usize = 0;
        while k < all.len()
            invariant
                all@ == Unit::spec_iter(),
                k <= all@.len(),
                forall|i: int|
                    0 <= i < r@.len() ==> self.spec_get(#[trigger] r@[i].0) == r@[i].1 && r@[i].1
                        > 0,
                forall|j: int|
                    0 <= j < k ==> (self.spec_get(#[trigger] all@[j]) > 0 ==> r@.contains(
                        (all@[j], self.spec_get(all@[j])),
                    )),
                forall|i: int| 0 <= i < r@.len() ==> (#[trigger] r@[i].0.spec_index()) < k,
                forall|i: int, j: int| 0 <= i < j < r@.len() ==> r@[i].0 != r@[j].0,
            decreases all@.len() - k,
        {
            let u = all[k];
            proof {
                Unit::lemma_iter_complete(u);
            }
            let count = self.available(u);
            if count > 0 {
                r.push((u, count));
            }
            k = k + 1;
        }
        proof {
            assert forall|u: Unit| self.spec_get(u) > 0 implies r@.contains(
                (u, self.spec_get(u)),
            ) by {
                Unit::lemma_iter_complete(u);
                assert(Unit::spec_iter()[u.spec_index()] == u);
            }
        }
        r
    }

    /// Max count of `unit` the bag may hold in a tower of the given type:
    /// the catalog capacity, raised by the ruler shield boost for `Shield`
    /// while a ruler is present. Without a tower context only the ruler is
    /// capped.
    pub open spec fn spec_capacity(self, unit: Unit, tower_type: Option<TowerType>) -> u8 {
        let base: u8 = match tower_type {
            Some(t) => t.spec_capacity(unit),
            None => if unit is Ruler {
                1
            } else {
                u8::MAX
            },
        };
        if (unit is Shield) && self.spec_has_ruler() {
            if base + RULER_SHIELD_BOOST <= u8::MAX {
                (base + RULER_SHIELD_BOOST) as u8
            } else {
                u8::MAX
            }
        } else {
            base
        }
    }

    /// Max count of `unit` the bag may hold in a tower of the given type.
    pub fn capacity(&self, unit: Unit, tower_type: Option<TowerType>) -> (r: u8)
        ensures
            r == self.spec_capacity(unit, tower_type),
    {
        let base: u8 = match tower_type {
            Some(t) => t.capacity(unit),
            None => if matches!(unit, Unit::Ruler) {
                1
            } else {
                u8::MAX
            },
        };
        if matches!(unit, Unit::Shield) && self.has_ruler() {
            if base <= u8::MAX - RULER_SHIELD_BOOST {
                base + RULER_SHIELD_BOOST
            } else {
                u8::MAX
            }
        } else {
            base
        }
    }

    /// A bag with a defined edge limit holds at least one unit.
    proof fn lemma_upto_some_nonempty(u: Units, k: int)
        requires
            u.spec_max_edge_upto(k) is Some,
        ensures
            !u.spec_is_empty(),
        decreases k,
    {
        if k > 0 {
            let un = Unit::spec_iter()[k - 1];
            if u.spec_get(un) > 0 {
                assert(!u.spec_is_empty());
            } else {
                Self::lemma_upto_some_nonempty(u, k - 1);
            }
        }
    }

    /// Longest path edge every unit among the first `k` kinds can
    /// traverse: the least of the per-unit limits, `None` if none are
    /// present.
    pub open spec fn spec_max_edge_upto(self, k: int) -> Option<u32>
        decreases k,
    {
        if k <= 0 {
            None
        } else {
            let u = Unit::spec_iter()[k - 1];
            let rest = self.spec_max_edge_upto(k - 1);
            if self.spec_get(u) > 0 {
                match rest {
                    None => Some(u.spec_edge_distance()),
                    Some(m) => if u.spec_edge_distance() < m {
                        Some(u.spec_edge_distance())
                    } else {
                        Some(m)
                    },
                }
            } else {
                rest
            }
        }
    }

    /// Longest path edge every unit in the bag can traverse: the least of
    /// the per-unit limits, `None` for an empty bag.
    pub open spec fn spec_max_edge_distance(self) -> Option<u32> {
        self.spec_max_edge_upto(crate::unit::UNIT_COUNT as int)
    }

    /// Longest path edge every unit in the bag can traverse: the least of
    /// the per-unit limits, `None` for an empty bag.
    pub fn max_edge_distance(&self) -> (r: Option<u32>)
        ensures
            r == self.spec_max_edge_distance(),
            r is None <==> self.spec_is_empty(),
    {
        let all = Unit::iter();
        let mut r: Option<u32> = None;
        let mut k: usize = 0;
        while k < all.len()
            invariant
                all@ == Unit::spec_iter(),
                k <= all@.len(),
                r == self.spec_max_edge_upto(k as int),
                r is None ==> forall|j: int| 0 <= j < k ==> self.spec_get(#[trigger] all@[j]) == 0,
            decreases all@.len() - k,
        {
            let u = all[k];
            proof {
                Unit::lemma_iter_complete(u);
            }
            if self.available(u) > 0 {
                let e = u.edge_distance();
                r = match r {
                    None => Some(e),
                    Some(m) => if e < m {
                        Some(e)
                    } else {
                        Some(m)
                    },
                };
            }
            k = k + 1;
        }
        proof {
            if r is None {
                assert forall|u: Unit| self.spec_get(u) == 0 by {
                    Unit::lemma_iter_complete(u);
                    assert(Unit::spec_iter()[u.spec_index()] == u);
                }
            } else {
                Self::lemma_upto_some_nonempty(*self, crate::unit::UNIT_COUNT as int);
            }
        }
        r
    }

    /// The reconciled count of `unit`: rulers and shields vanish from an
    /// unowned tower, every count is clamped to its capacity.
    pub open spec fn spec_reconciled(self, tower_type: TowerType, owned: bool, unit: Unit) -> u8 {
        if !owned && (unit is Ruler || unit is Shield) {
            0
        } else {
            let stripped = if owned {
                self
            } else {
                self.spec_set(Unit::Ruler, 0).spec_set(Unit::Shield, 0)
            };
            let cap = stripped.spec_capacity(unit, Some(tower_type));
            if self.spec_get(unit) <= cap {
                self.spec_get(unit)
            } else {
                cap
            }
        }
    }

    /// Clamps every count to its capacity in a tower of the given type;
    /// an unowned tower keeps neither rulers nor shields.
    pub fn reconcile(&mut self, tower_type: TowerType, owned: bool)
        ensures
            forall|u: Unit|
                final(self).spec_get(u) == old(self).spec_reconciled(tower_type, owned, u),
    {
        if !owned {
            self.set(Unit::Ruler, 0);
            self.set(Unit::Shield, 0);
        }
        let ghost stripped = *self;
        let all = Unit::iter();
        let mut k: usize = 0;
        while k < all.len()
            invariant
                all@ == Unit::spec_iter(),
                k <= all@.len(),
                self.spec_has_ruler() == stripped.spec_has_ruler(),
                forall|j: int|
                    0 <= j < k ==> self.spec_get(#[trigger] all@[j]) == if stripped.spec_get(
                        all@[j],
                    ) <= stripped.spec_capacity(all@[j], Some(tower_type)) {
                        stripped.spec_get(all@[j])
                    } else {
                        stripped.spec_capacity(all@[j], Some(tower_type))
                    },
                forall|j: int|
                    k <= j < all@.len() ==> self.spec_get(#[trigger] all@[j])
                        == stripped.spec_get(all@[j]),
            decreases all@.len() - k,
        {
            let u = all[k];
            proof {
                Unit::lemma_iter_complete(u);
                assert forall|i: int, j: int|
                    0 <= i < all@.len() && 0 <= j < all@.len() && i != j
                    implies all@[i] != all@[j] by {}
            }
            let cap = self.capacity(u, Some(tower_type));
            let count = self.available(u);
            if count > cap {
                self.set(u, cap);
            }
            k = k + 1;
        }
        proof {
            assert forall|u: Unit|
                final(self).spec_get(u) == old(self).spec_reconciled(
                    tower_type,
                    owned,
                    u,
                ) by {
                Unit::lemma_iter_complete(u);
                assert(Unit::spec_iter()[u.spec_index()] == u);
            }
        }
    }
}

} // verus!

//! The per-cell runtime entity: ownership, unit stock, pending upgrade
//! delay, in-flight forces, and the supply line.

use vstd::prelude::*;
use crate::id::TowerId;
use crate::path::{Force, Path};
use crate::player::PlayerId;
use crate::tower_type::TowerType;
use crate::unit::{Ticks, Unit};
use crate::units::Units;

verus! {

broadcast use vstd::seq_lib::lemma_seq_contains_after_push;

/// A cell on the world grid that can be owned, generate units, and
/// dispatch forces.
#[derive(Clone, PartialEq, Eq, Hash, Debug)]
pub struct Tower {
    /// Current owner; `None` means neutral.
    pub player_id: Option<PlayerId>,
    /// Current stock of units.
    pub units: Units,
    pub tower_type: TowerType,
    /// Ticks until usable; present while an upgrade is pending.
    pub delay: Option<u8>,
    /// Forces that will eventually arrive and be processed.
    pub inbound_forces: Vec<Force>,
    /// Mirrors inbound forces of the opposing tower; discarded on arrival.
    pub outbound_forces: Vec<Force>,
    /// Where the tower sends units it cannot generate or hold.
    pub supply_line: Option<Path>,
}

impl Tower {
    /// Structural invariant: a neutral tower holds neither ruler nor
    /// shield, a pending delay is nonzero, and every inbound force that
    /// carries a ruler names its player.
    pub open spec fn wf(self) -> bool {
        &&& self.player_id is None ==> self.units.spec_get(Unit::Ruler) == 0
            && self.units.spec_get(Unit::Shield) == 0
        &&& self.delay matches Some(d) ==> d > 0
        &&& forall|i: int|
            0 <= i < self.inbound_forces@.len() ==> ((#[trigger] self.inbound_forces@[i]).units.spec_has_ruler()
                ==> self.inbound_forces@[i].player_id is Some)
    }

    /// An empty, neutral, active tower of the given type.
    pub fn with_type(tower_type: TowerType) -> (r: Tower)
        ensures
            r.wf(),
            r.player_id is None,
            forall|u: Unit| r.units.spec_get(u) == 0,
            r.tower_type == tower_type,
            r.delay is None,
            r.inbound_forces@.len() == 0,
            r.outbound_forces@.len() == 0,
            r.supply_line is None,
    {
        Tower {
            player_id: None,
            units: Units::default(),
            tower_type,
            delay: None,
            inbound_forces: Vec::new(),
            outbound_forces: Vec::new(),
            supply_line: None,
        }
    }

    /// An empty, neutral, active tower of the cell's deterministic type.
    pub fn new(tower_id: TowerId) -> (r: Tower)
        ensures
            r.wf(),
            r.player_id is None,
            forall|u: Unit| r.units.spec_get(u) == 0,
            r.tower_type == tower_id.spec_tower_type(),
            r.delay is None,
            r.inbound_forces@.len() == 0,
            r.outbound_forces@.len() == 0,
            r.supply_line is None,
    {
        Self::with_type(tower_id.tower_type())
    }

    /// The tower is usable: no upgrade delay is pending. Inactive towers
    /// neither generate units nor count toward upgrades.
    pub fn active(&self) -> (r: bool)
        ensures
            r == (self.delay is None),
    {
        self.delay.is_none()
    }

    /// The tower is eligible to be destroyed: neutral with no inbound
    /// forces.
    pub open spec fn spec_can_destroy(self) -> bool {
        self.inbound_forces@.len() == 0 && self.player_id is None
    }

    /// The tower is eligible to be destroyed.
    pub fn can_destroy(&self) -> (r: bool)
        ensures
            r == self.spec_can_destroy(),
    {
        self.inbound_forces.is_empty() && self.player_id.is_none()
    }

    /// The senders of the first `k` inbound forces that carry a ruler, in
    /// inbound order.
    pub open spec fn spec_force_rulers(forces: Seq<Force>, k: int) -> Seq<PlayerId>
        decreases k,
    {
        if k <= 0 {
            Seq::empty()
        } else {
            Self::spec_force_rulers(forces, k - 1) + (if forces[k - 1].units.spec_has_ruler()
                && forces[k - 1].player_id is Some {
                seq![forces[k - 1].player_id->0]
            } else {
                Seq::empty()
            })
        }
    }

    /// The players with a ruler at this tower, in yield order: the owner
    /// first if a ruler is garrisoned, then the senders of ruler-carrying
    /// inbound forces in inbound order.
    pub open spec fn spec_iter_rulers(self) -> Seq<PlayerId> {
        (if self.units.spec_has_ruler() && self.player_id is Some {
            seq![self.player_id->0]
        } else {
            Seq::empty()
        }) + Self::spec_force_rulers(self.inbound_forces@, self.inbound_forces@.len() as int)
    }

    /// The player `p` has a ruler at this tower: garrisoned as its owner
    /// or aboard an inbound force.
    pub open spec fn spec_ruler_source(self, p: PlayerId) -> bool {
        ||| self.units.spec_has_ruler() && self.player_id == Some(p)
        ||| exists|i: int|
            0 <= i < self.inbound_forces@.len() && (
            #[trigger] self.inbound_forces@[i]).units.spec_has_ruler()
                && self.inbound_forces@[i].player_id == Some(p)
    }

    /// The players with their ruler at or incoming to this tower: the
    /// owner if a ruler is garrisoned, then the senders of inbound forces
    /// that carry one.
    pub fn iter_rulers(&self) -> (r: Vec<PlayerId>)
        requires
            self.wf(),
        ensures
            r@ == self.spec_iter_rulers(),
            (self.units.spec_has_ruler() && self.player_id is Some) ==> r@.contains(
                self.player_id->0,
            ),
            forall|i: int|
                0 <= i < self.inbound_forces@.len() ==> ((
                #[trigger] self.inbound_forces@[i]).units.spec_has_ruler() ==> r@.contains(
                    self.inbound_forces@[i].player_id->0,
                )),
            forall|m: int| 0 <= m < r@.len() ==> self.spec_ruler_source(#[trigger] r@[m]),
    {
        let mut r: Vec<PlayerId> = Vec::new();
        if self.units.has_ruler() {
            if let Some(owner) = self.player_id {
                r.push(owner);
            }
        }
        let ghost owner_part = r@;
        let mut k: usize = 0;
        while k < self.inbound_forces.len()
            invariant
                self.wf(),
                k <= self.inbound_forces@.len(),
                (self.units.spec_has_ruler() && self.player_id is Some) ==> r@.contains(
                    self.player_id->0,
                ),
                forall|j: int|
                    0 <= j < k ==> ((#[trigger] self.inbound_forces@[j]).units.spec_has_ruler()
                        ==> r@.contains(self.inbound_forces@[j].player_id->0)),
                forall|m: int| 0 <= m < r@.len() ==> self.spec_ruler_source(#[trigger] r@[m]),
                owner_part == (if self.units.spec_has_ruler() && self.player_id is Some {
                    seq![self.player_id->0]
                } else {
                    Seq::<PlayerId>::empty()
                }),
                r@ =~= owner_part + Self::spec_force_rulers(self.inbound_forces@, k as int),
            decreases self.inbound_forces@.len() - k,
        {
            let force = &self.inbound_forces[k];
            if force.units.has_ruler() {
                if let Some(sender) = force.player_id {
                    let ghost prev = r@;
                    r.push(sender);
                    proof {
                        assert(self.inbound_forces@[k as int].units.spec_has_ruler()
                            && self.inbound_forces@[k as int].player_id == Some(sender));
                        assert(self.spec_ruler_source(sender));
                        assert forall|m: int| 0 <= m < r@.len() implies self.spec_ruler_source(
                            #[trigger] r@[m],
                        ) by {
                            if m < prev.len() {
                                assert(r@[m] == prev[m]);
                            } else {
                                assert(r@[m] == sender);
                            }
                        }
                    }
                }
            }
            proof {
                assert(r@ =~= owner_part + Self::spec_force_rulers(
                    self.inbound_forces@,
                    k as int + 1,
                ));
            }
            k = k + 1;
        }
        proof {
            assert(r@ =~= self.spec_iter_rulers());
        }
        r
    }

    /// The stock of units that could leave the tower in a force.
    pub open spec fn spec_force_units(self) -> Units {
        Units {
            soldier: if Unit::Soldier.spec_is_mobile(Some(self.tower_type)) {
                self.units.soldier
            } else {
                0
            },
            tank: if Unit::Tank.spec_is_mobile(Some(self.tower_type)) {
                self.units.tank
            } else {
                0
            },
            fighter: if Unit::Fighter.spec_is_mobile(Some(self.tower_type)) {
                self.units.fighter
            } else {
                0
            },
            bomber: if Unit::Bomber.spec_is_mobile(Some(self.tower_type)) {
                self.units.bomber
            } else {
                0
            },
            chopper: if Unit::Chopper.spec_is_mobile(Some(self.tower_type)) {
                self.units.chopper
            } else {
                0
            },
            frigate: if Unit::Frigate.spec_is_mobile(Some(self.tower_type)) {
                self.units.frigate
            } else {
                0
            },
            submarine: if Unit::Submarine.spec_is_mobile(Some(self.tower_type)) {
                self.units.submarine
            } else {
                0
            },
            shell: if Unit::Shell.spec_is_mobile(Some(self.tower_type)) {
                self.units.shell
            } else {
                0
            },
            emp: if Unit::Emp.spec_is_mobile(Some(self.tower_type)) {
                self.units.emp
            } else {
                0
            },
            nuke: if Unit::Nuke.spec_is_mobile(Some(self.tower_type)) {
                self.units.nuke
            } else {
                0
            },
            shield: if Unit::Shield.spec_is_mobile(Some(self.tower_type)) {
                self.units.shield
            } else {
                0
            },
            ruler: if Unit::Ruler.spec_is_mobile(Some(self.tower_type)) {
                self.units.ruler
            } else {
                0
            },
        }
    }

    /// All units that can be deployed in a force: the mobile part of the
    /// stock under the current tower type.
    pub fn force_units(&self) -> (r: Units)
        ensures
            r == self.spec_force_units(),
            forall|u: Unit|
                r.spec_get(u) == if u.spec_is_mobile(Some(self.tower_type)) {
                    self.units.spec_get(u)
                } else {
                    0
                },
    {
        let mut r = Units::default();
        let all = Unit::iter();
        let mut k: usize = 0;
        while k < all.len()
            invariant
                all@ == Unit::spec_iter(),
                k <= all@.len(),
                forall|j: int|
                    0 <= j < k ==> r.spec_get(#[trigger] all@[j]) == if all@[j].spec_is_mobile(
                        Some(self.tower_type),
                    ) {
                        self.units.spec_get(all@[j])
                    } else {
                        0
                    },
                forall|j: int| k <= j < all@.len() ==> r.spec_get(#[trigger] all@[j]) == 0,
            decreases all@.len() - k,
        {
            let u = all[k];
            proof {
                Unit::lemma_iter_complete(u);
                assert forall|i: int, j: int|
                    0 <= i < all@.len() && 0 <= j < all@.len() && i != j
                    implies all@[i] != all@[j] by {}
            }
            if u.is_mobile(Some(self.tower_type)) {
                let count = self.units.available(u);
                r.set(u, count);
            }
            k = k + 1;
        }
        proof {
            assert forall|u: Unit|
                r.spec_get(u) == if u.spec_is_mobile(Some(self.tower_type)) {
                    self.units.spec_get(u)
                } else {
                    0
                } by {
                Unit::lemma_iter_complete(u);
                assert(Unit::spec_iter()[u.spec_index()] == u);
            }
            assert(r =~= self.spec_force_units());
        }
        r
    }

    /// Takes all units that can be deployed in a force, debiting the
    /// tower's stock exactly.
    pub fn take_force_units(&mut self) -> (r: Units)
        requires
            old(self).wf(),
        ensures
            r == old(self).spec_force_units(),
            forall|u: Unit|
                final(self).units.spec_get(u) == if u.spec_is_mobile(Some(old(self).tower_type)) {
                    0
                } else {
                    old(self).units.spec_get(u)
                },
            final(self).player_id == old(self).player_id,
            final(self).tower_type == old(self).tower_type,
            final(self).delay == old(self).delay,
            final(self).inbound_forces == old(self).inbound_forces,
            final(self).outbound_forces == old(self).outbound_forces,
            final(self).supply_line == old(self).supply_line,
            final(self).wf(),
    {
        let r = self.force_units();
        let all = Unit::iter();
        let mut k: usize = 0;
        while k < all.len()
            invariant
                all@ == Unit::spec_iter(),
                k <= all@.len(),
                r == old(self).spec_force_units(),
                self.player_id == old(self).player_id,
                self.tower_type == old(self).tower_type,
                self.delay == old(self).delay,
                self.inbound_forces == old(self).inbound_forces,
                self.outbound_forces == old(self).outbound_forces,
                self.supply_line == old(self).supply_line,
                forall|j: int|
                    0 <= j < k ==> self.units.spec_get(#[trigger] all@[j])
                        == if all@[j].spec_is_mobile(Some(old(self).tower_type)) {
                        0
                    } else {
                        old(self).units.spec_get(all@[j])
                    },
                forall|j: int|
                    k <= j < all@.len() ==> self.units.spec_get(#[trigger] all@[j]) == old(
                        self,
                    ).units.spec_get(all@[j]),
            decreases all@.len() - k,
        {
            let u = all[k];
            proof {
                Unit::lemma_iter_complete(u);
                assert forall|i: int, j: int|
                    0 <= i < all@.len() && 0 <= j < all@.len() && i != j
                    implies all@[i] != all@[j] by {}
            }
            let count = r.available(u);
            let removed = self.units.subtract(u, count);
            proof {
                assert(removed == count);
            }
            k = k + 1;
        }
        proof {
            assert forall|u: Unit|
                self.units.spec_get(u) == if u.spec_is_mobile(Some(old(self).tower_type)) {
                    0int as u8
                } else {
                    old(self).units.spec_get(u)
                } by {
                Unit::lemma_iter_complete(u);
                assert(Unit::spec_iter()[u.spec_index()] == u);
            }
        }
        r
    }

    /// The period with which the tower generates `unit`: the catalog rate,
    /// except that a garrisoned ruler suppresses everything but `Shield`.
    pub open spec fn spec_unit_generation(self, unit: Unit) -> Option<Ticks> {
        if unit != Unit::Shield && self.units.spec_has_ruler() {
            None
        } else {
            self.tower_type.spec_unit_generation(unit)
        }
    }

    /// The period with which the tower generates `unit`.
    pub fn unit_generation(&self, unit: Unit) -> (r: Option<Ticks>)
        ensures
            r == self.spec_unit_generation(unit),
    {
        if !matches!(unit, Unit::Shield) && self.units.has_ruler() {
            None
        } else {
            self.tower_type.unit_generation(unit)
        }
    }

    /// The tower currently generates at least one unit kind that could
    /// leave it in a force.
    pub fn generates_mobile_units(&self) -> (r: bool)
        ensures
            r == exists|u: Unit|
                u.spec_is_mobile(Some(self.tower_type)) && (#[trigger] self.spec_unit_generation(
                    u,
                )) is Some,
    {
        let all = Unit::iter();
        let mut k: usize = 0;
        while k < all.len()
            invariant
                all@ == Unit::spec_iter(),
                k <= all@.len(),
                forall|j: int|
                    0 <= j < k ==> !(all@[j].spec_is_mobile(Some(self.tower_type)) && (
                    #[trigger] self.spec_unit_generation(all@[j])) is Some),
            decreases all@.len() - k,
        {
            let u = all[k];
            if u.is_mobile(Some(self.tower_type)) && self.unit_generation(u).is_some() {
                return true;
            }
            k = k + 1;
        }
        proof {
            assert forall|u: Unit|
                !(u.spec_is_mobile(Some(self.tower_type)) && (#[trigger] self.spec_unit_generation(
                    u,
                )) is Some) by {
                Unit::lemma_iter_complete(u);
                assert(Unit::spec_iter()[u.spec_index()] == u);
            }
        }
        false
    }

    /// Clamps every unit count to its capacity under the current type and
    /// ownership.
    pub fn reconcile_units(&mut self)
        ensures
            forall|u: Unit|
                final(self).units.spec_get(u) == old(self).units.spec_reconciled(
                    old(self).tower_type,
                    old(self).player_id is Some,
                    u,
                ),
            final(self).player_id == old(self).player_id,
            final(self).tower_type == old(self).tower_type,
            final(self).delay == old(self).delay,
            final(self).inbound_forces == old(self).inbound_forces,
            final(self).outbound_forces == old(self).outbound_forces,
            final(self).supply_line == old(self).supply_line,
            old(self).wf() ==> final(self).wf(),
    {
        let owned = self.player_id.is_some();
        let tower_type = self.tower_type;
        self.units.reconcile(tower_type, owned);
    }

    /// The unit kind is over its limit at this tower: the tower is neutral
    /// or holds more than its capacity.
    pub open spec fn spec_diminish_cond(self, u: Unit) -> bool {
        self.player_id is None || self.units.spec_get(u) > self.units.spec_capacity(
            u,
            Some(self.tower_type),
        )
    }

    /// The count of `u` after one diminish step.
    pub open spec fn spec_diminished(self, u: Unit) -> u8 {
        if self.spec_diminish_cond(u) && self.units.spec_get(u) > 0 {
            (self.units.spec_get(u) - 1) as u8
        } else {
            self.units.spec_get(u)
        }
    }

    /// One if a diminish step removes a mobile unit of kind `u`.
    pub open spec fn spec_diminish_term(self, u: Unit) -> int {
        if self.spec_diminish_cond(u) && self.units.spec_get(u) > 0 && u.spec_is_mobile(
            Some(self.tower_type),
        ) {
            1
        } else {
            0
        }
    }

    /// Mobile units removed by one diminish pass over the first `k` unit
    /// kinds.
    pub open spec fn spec_diminish_sum(self, k: int) -> int
        decreases k,
    {
        if k <= 0 {
            0
        } else {
            self.spec_diminish_sum(k - 1) + self.spec_diminish_term(Unit::spec_iter()[k - 1])
        }
    }

    /// Bleeds off one unit of every kind that a dead or over-capacity
    /// tower cannot keep; returns how many mobile units were removed.
    pub fn diminish_units_if_dead_or_overflow(&mut self) -> (r: usize)
        ensures
            forall|u: Unit| final(self).units.spec_get(u) == old(self).spec_diminished(u),
            r as int == old(self).spec_diminish_sum(crate::unit::UNIT_COUNT as int),
            final(self).player_id == old(self).player_id,
            final(self).tower_type == old(self).tower_type,
            final(self).delay == old(self).delay,
            final(self).inbound_forces == old(self).inbound_forces,
            final(self).outbound_forces == old(self).outbound_forces,
            final(self).supply_line == old(self).supply_line,
            old(self).wf() ==> final(self).wf(),
    {
        let all = Unit::iter();
        let mut r: usize = 0;
        let mut k: usize = 0;
        while k < all.len()
            invariant
                all@ == Unit::spec_iter(),
                k <= all@.len(),
                r <= k,
                r as int == old(self).spec_diminish_sum(k as int),
                self.player_id == old(self).player_id,
                self.tower_type == old(self).tower_type,
                self.delay == old(self).delay,
                self.inbound_forces == old(self).inbound_forces,
                self.outbound_forces == old(self).outbound_forces,
                self.supply_line == old(self).supply_line,
                forall|j: int|
                    0 <= j < k ==> self.units.spec_get(#[trigger] all@[j]) == old(
                        self,
                    ).spec_diminished(all@[j]),
                forall|j: int|
                    k <= j < all@.len() ==> self.units.spec_get(#[trigger] all@[j]) == old(
                        self,
                    ).units.spec_get(all@[j]),
            decreases all@.len() - k,
        {
            let u = all[k];
            proof {
                Unit::lemma_iter_complete(u);
                assert forall|i: int, j: int|
                    0 <= i < all@.len() && 0 <= j < all@.len() && i != j
                    implies all@[i] != all@[j] by {}
                assert(self.units.spec_get(Unit::Ruler) == old(self).units.spec_get(Unit::Ruler));
            }
            let cap = self.units.capacity(u, Some(self.tower_type));
            if self.player_id.is_none() || self.units.available(u) > cap {
                let subtracted = self.units.subtract(u, 1);
                if u.is_mobile(Some(self.tower_type)) {
                    r = r + subtracted as usize;
                }
            }
            k = k + 1;
        }
        proof {
            assert forall|u: Unit|
                self.units.spec_get(u) == old(self).spec_diminished(u) by {
                Unit::lemma_iter_complete(u);
                assert(Unit::spec_iter()[u.spec_index()] == u);
            }
        }
        r
    }

    /// Changes the owner fields directly, clearing the supply line on any
    /// transition out of an owned state; see [`Tower::set_player_id`].
    pub fn set_player_id_inner(
        current: &mut Option<PlayerId>,
        units: &Units,
        supply: &mut Option<Path>,
        next: Option<PlayerId>,
    )
        requires
            *old(current) != next,
            (*old(current)) is None ==> next is Some && (*old(supply)) is None,
            units.spec_get(Unit::Ruler) == 0,
            units.spec_get(Unit::Shield) == 0,
        ensures
            *final(current) == next,
            (*old(current)) is Some ==> (*final(supply)) is None,
            (*old(current)) is None ==> *final(supply) == *old(supply),
    {
        if current.is_some() {
            *supply = None;
        }
        *current = next;
    }

    /// Changes the owner, clearing the supply line on any transition out
    /// of an owned state. The only legal transitions are neutral to owned
    /// and owned to anywhere else, never with a ruler or shield present,
    /// and never a self-transition.
    pub fn set_player_id(&mut self, player_id: Option<PlayerId>)
        requires
            old(self).player_id != player_id,
            old(self).player_id is None ==> player_id is Some && old(self).supply_line is None,
            old(self).units.spec_get(Unit::Ruler) == 0,
            old(self).units.spec_get(Unit::Shield) == 0,
        ensures
            final(self).player_id == player_id,
            old(self).player_id is Some ==> final(self).supply_line is None,
            old(self).player_id is None ==> final(self).supply_line == old(self).supply_line,
            final(self).units == old(self).units,
            final(self).tower_type == old(self).tower_type,
            final(self).delay == old(self).delay,
            final(self).inbound_forces == old(self).inbound_forces,
            final(self).outbound_forces == old(self).outbound_forces,
            old(self).wf() ==> final(self).wf(),
    {
        let next = player_id;
        if self.player_id.is_some() {
            self.supply_line = None;
        }
        self.player_id = next;
    }
}

} // verus!

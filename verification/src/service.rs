//! The world facade: player operations validate against the world, apply
//! their effects, and record the messages they dispatch to chunk and
//! player actors.

use vstd::prelude::*;
use crate::id::TowerId;
use crate::message::{ChunkInput, ChunkMaintenance, Dispatch, PlayerInput, PlayerMaintenance};
use crate::path::{Path, TowerError};
use crate::player::{Player, PlayerId};
use crate::tower::Tower;
use crate::tower_type::TowerType;
use crate::unit::Unit;
use crate::world::{spec_edge_limit, spec_seq_get, spec_seq_has, spec_valid_path, World};

verus! {

broadcast use vstd::seq_lib::lemma_seq_contains_after_push;

/// Some entry of `s` belongs to the player `id`.
pub open spec fn spec_players_has(s: Seq<(PlayerId, Player)>, id: PlayerId) -> bool {
    exists|i: int| 0 <= i < s.len() && (#[trigger] s[i]).0 == id
}

/// The aggregate stored for the player `id`; meaningful while keys are
/// distinct.
pub open spec fn spec_players_get(s: Seq<(PlayerId, Player)>, id: PlayerId) -> Option<Player> {
    if spec_players_has(s, id) {
        let i = choose|i: int| 0 <= i < s.len() && (#[trigger] s[i]).0 == id;
        Some(s[i].1)
    } else {
        None
    }
}

/// The authoritative server core: the world, the player aggregates, the
/// regulator's set of active players, and the log of dispatched messages.
pub struct TowerService {
    pub world: World,
    pub players: Vec<(PlayerId, Player)>,
    pub active: Vec<PlayerId>,
    pub outbox: Vec<Dispatch>,
    pub rng: rand::rngs::StdRng,
}

impl TowerService {
    /// The world is well formed and player keys are distinct, each with a
    /// well-formed aggregate.
    pub open spec fn wf(self) -> bool {
        &&& self.world.wf()
        &&& forall|i: int, j: int|
            0 <= i < j < self.players@.len() ==> (#[trigger] self.players@[i]).0 != (
            #[trigger] self.players@[j]).0
        &&& forall|i: int| 0 <= i < self.players@.len() ==> (#[trigger] self.players@[i]).1.wf()
    }

    /// The player known to the service, if any.
    pub open spec fn spec_player(self, id: PlayerId) -> Option<Player> {
        spec_players_get(self.players@, id)
    }

    /// The player is known to the service.
    pub open spec fn spec_has_player(self, id: PlayerId) -> bool {
        spec_players_has(self.players@, id)
    }

    /// A known player's aggregate is well formed.
    pub proof fn lemma_player_wf(self, id: PlayerId)
        requires
            self.wf(),
            self.spec_player(id) is Some,
        ensures
            self.spec_player(id)->0.wf(),
    {
        let i = choose|i: int|
            0 <= i < self.players@.len() && (#[trigger] self.players@[i]).0 == id;
        assert(self.players@[i].1.wf());
    }

    /// An empty service over an empty world, with the given random seed
    /// for the spawn search.
    pub fn new(seed: u64) -> (r: TowerService)
        ensures
            r.wf(),
            r.world.towers@.len() == 0,
            r.players@.len() == 0,
            r.active@.len() == 0,
            r.outbox@.len() == 0,
    {
        TowerService {
            world: World::new(),
            players: Vec::new(),
            active: Vec::new(),
            outbox: Vec::new(),
            rng: crate::rng::seed_rng(seed),
        }
    }

    /// The index of the player's entry.
    fn find_player(&self, id: PlayerId) -> (r: Option<usize>)
        requires
            self.wf(),
        ensures
            r matches Some(k) ==> k < self.players@.len() && self.players@[k as int].0 == id
                && self.spec_player(id) == Some(self.players@[k as int].1),
            r is None ==> !self.spec_has_player(id),
    {
        let mut k: usize = 0;
        while k < self.players.len()
            invariant
                self.wf(),
                k <= self.players@.len(),
                forall|j: int| 0 <= j < k ==> (#[trigger] self.players@[j]).0 != id,
            decreases self.players@.len() - k,
        {
            if self.players[k].0 == id {
                proof {
                    assert(self.spec_has_player(id));
                    let i = choose|i: int|
                        0 <= i < self.players@.len() && (#[trigger] self.players@[i]).0 == id;
                    assert(i == k);
                }
                return Some(k);
            }
            k = k + 1;
        }
        None
    }

    /// The player known to the service, if any.
    pub fn player(&self, id: PlayerId) -> (r: Option<&Player>)
        requires
            self.wf(),
        ensures
            match r {
                Some(p) => self.spec_player(id) == Some(*p),
                None => self.spec_player(id) is None,
            },
    {
        match self.find_player(id) {
            Some(k) => Some(&self.players[k].1),
            None => None,
        }
    }

    /// Records or replaces the aggregate of a player. Nothing else
    /// changes.
    pub fn set_player(&mut self, id: PlayerId, player: Player)
        requires
            old(self).wf(),
            player.wf(),
        ensures
            final(self).wf(),
            final(self).spec_player(id) == Some(player),
            forall|o: PlayerId|
                o != id ==> final(self).spec_player(o) == old(self).spec_player(o),
            forall|o: PlayerId|
                o != id ==> final(self).spec_has_player(o) == old(self).spec_has_player(o),
            final(self).world == old(self).world,
            final(self).active == old(self).active,
            final(self).outbox == old(self).outbox,
    {
        let found = self.find_player(id);
        let ghost prev = self.players@;
        let ghost kg: int = match found {
            Some(k) => k as int,
            None => prev.len() as int,
        };
        match found {
            Some(k) => {
                self.players.set(k, (id, player));
            }
            None => {
                self.players.push((id, player));
            }
        }
        proof {
            let cur = self.players@;
            assert(cur[kg].0 == id && cur[kg].1 == player);
            assert(forall|j: int| 0 <= j < cur.len() && j != kg ==> cur[j] == prev[j]);
            assert(spec_players_has(cur, id));
            let i = choose|i: int| 0 <= i < cur.len() && (#[trigger] cur[i]).0 == id;
            if i != kg {
                assert(prev[i].0 == id);
                assert(found is Some);
                assert(false);
            }
            assert forall|o: PlayerId| o != id implies final(self).spec_player(o) == old(
                self,
            ).spec_player(o) && final(self).spec_has_player(o) == old(self).spec_has_player(
                o,
            ) by {
                if spec_players_has(prev, o) {
                    let a = choose|a: int| 0 <= a < prev.len() && (#[trigger] prev[a]).0 == o;
                    if a == kg {
                        assert(found is Some && prev[kg].0 == id);
                        assert(false);
                    }
                    assert(cur[a].0 == o);
                    assert(spec_players_has(cur, o));
                    let b = choose|b: int| 0 <= b < cur.len() && (#[trigger] cur[b]).0 == o;
                    if b == kg {
                        assert(false);
                    }
                    assert(prev[b].0 == o);
                    assert(a == b);
                } else {
                    if spec_players_has(cur, o) {
                        let b = choose|b: int| 0 <= b < cur.len() && (#[trigger] cur[b]).0 == o;
                        assert(b != kg);
                        assert(prev[b].0 == o);
                        assert(false);
                    }
                }
            }
        }
    }

    /// Removes and returns the aggregate of a player.
    fn take_player(&mut self, id: PlayerId) -> (r: Option<Player>)
        requires
            old(self).wf(),
        ensures
            final(self).wf(),
            r == old(self).spec_player(id),
            !final(self).spec_has_player(id),
            r is None ==> *final(self) == *old(self),
            forall|o: PlayerId|
                o != id ==> final(self).spec_player(o) == old(self).spec_player(o),
            forall|o: PlayerId|
                o != id ==> final(self).spec_has_player(o) == old(self).spec_has_player(o),
            final(self).world == old(self).world,
            final(self).active == old(self).active,
            final(self).outbox == old(self).outbox,
    {
        let found = self.find_player(id);
        let ghost prev = self.players@;
        if let Some(k) = found {
            let entry = self.players.remove(k);
            proof {
                let cur = self.players@;
                let kg = k as int;
                assert(cur =~= prev.subrange(0, kg) + prev.subrange(kg + 1, prev.len() as int));
                assert(forall|j: int| 0 <= j < kg ==> cur[j] == prev[j]);
                assert(forall|j: int| kg <= j < cur.len() ==> cur[j] == prev[j + 1]);
                assert forall|i: int, j: int|
                    0 <= i < j < cur.len() implies (#[trigger] cur[i]).0 != (
                #[trigger] cur[j]).0 by {
                    let pi: int = if i < kg {
                        i
                    } else {
                        i + 1
                    };
                    let pj: int = if j < kg {
                        j
                    } else {
                        j + 1
                    };
                    assert(cur[i] == prev[pi] && cur[j] == prev[pj] && pi < pj);
                }
                if spec_players_has(cur, id) {
                    let b = choose|b: int| 0 <= b < cur.len() && (#[trigger] cur[b]).0 == id;
                    let pb: int = if b < kg {
                        b
                    } else {
                        b + 1
                    };
                    assert(prev[pb].0 == id && pb != kg && prev[kg].0 == id);
                    assert(false);
                }
                assert forall|o: PlayerId| o != id implies final(self).spec_player(o) == old(
                    self,
                ).spec_player(o) && final(self).spec_has_player(o) == old(self).spec_has_player(
                    o,
                ) by {
                    if spec_players_has(prev, o) {
                        let a = choose|a: int| 0 <= a < prev.len() && (#[trigger] prev[a]).0 == o;
                        let ca: int = if a < kg {
                            a
                        } else {
                            a - 1
                        };
                        assert(a != kg);
                        assert(cur[ca].0 == o);
                        assert(spec_players_has(cur, o));
                        let b = choose|b: int| 0 <= b < cur.len() && (#[trigger] cur[b]).0 == o;
                        let pb: int = if b < kg {
                            b
                        } else {
                            b + 1
                        };
                        assert(prev[pb].0 == o);
                        assert(pb == a);
                        assert(cur[b] == prev[a]);
                    } else {
                        if spec_players_has(cur, o) {
                            let b = choose|b: int|
                                0 <= b < cur.len() && (#[trigger] cur[b]).0 == o;
                            let pb: int = if b < kg {
                                b
                            } else {
                                b + 1
                            };
                            assert(prev[pb].0 == o);
                            assert(false);
                        }
                    }
                }
            }
            return Some(entry.1);
        }
        None
    }

    /// Marks a player as active for the regulator.
    pub fn activate(&mut self, id: PlayerId)
        requires
            old(self).wf(),
        ensures
            final(self).wf(),
            final(self).active@ == old(self).active@.push(id),
            final(self).world == old(self).world,
            final(self).players == old(self).players,
            final(self).outbox == old(self).outbox,
    {
        self.active.push(id);
    }

    /// The regulator reports the player as active.
    pub fn regulator_active(&self, id: PlayerId) -> (r: bool)
        ensures
            r == self.active@.contains(id),
    {
        let mut k: usize = 0;
        while k < self.active.len()
            invariant
                k <= self.active@.len(),
                forall|j: int| 0 <= j < k ==> self.active@[j] != id,
            decreases self.active@.len() - k,
        {
            if self.active[k] == id {
                return true;
            }
            k = k + 1;
        }
        false
    }
}

} // verus!

verus! {

impl TowerService {
    /// The outcome `deploy_force` owes for the given arguments: the tower
    /// must exist, belong to the player, hold a deployable force, and the
    /// path must validate against the force's reach; a human player must
    /// be known so the alert can be raised.
    pub open spec fn spec_deploy_status(
        self,
        player_id: PlayerId,
        tower_id: TowerId,
        path: Path,
    ) -> Result<(), TowerError> {
        match self.world.spec_get_tower(tower_id) {
            None => Err(TowerError::NoTower),
            Some(tw) => if tw.player_id != Some(player_id) {
                Err(TowerError::NotOwned)
            } else if tw.spec_force_units().spec_is_empty() {
                Err(TowerError::EmptyForce)
            } else if !spec_valid_path(
                self.world,
                path.hops@,
                tower_id,
                spec_edge_limit(tw.spec_force_units().spec_max_edge_distance()),
            ) {
                Err(TowerError::InvalidPath)
            } else if !player_id.spec_is_bot() && self.spec_player(player_id) is None {
                Err(TowerError::NonexistentPlayer)
            } else {
                Ok(())
            },
        }
    }

    /// Deploys the tower's mobile units as a force along the path. On
    /// success the tower's deployable stock drops to empty, a human
    /// owner's deploy alert is raised, and exactly one `DeployForce`
    /// message goes to the owning chunk. Errors change nothing.
    pub fn deploy_force(&mut self, player_id: PlayerId, tower_id: TowerId, path: &Path) -> (r:
        Result<(), TowerError>)
        requires
            old(self).wf(),
        ensures
            final(self).wf(),
            r == old(self).spec_deploy_status(player_id, tower_id, *path),
            r is Err ==> *final(self) == *old(self),
            r is Ok ==> {
                &&& final(self).world.spec_get_tower(tower_id) matches Some(tw2)
                    && old(self).world.spec_get_tower(tower_id) matches Some(tw) && (forall|u: Unit|
                    tw2.units.spec_get(u) == if u.spec_is_mobile(Some(tw.tower_type)) {
                        0int
                    } else {
                        tw.units.spec_get(u) as int
                    }) && tw2.player_id == tw.player_id && tw2.tower_type == tw.tower_type
                    && tw2.delay == tw.delay && tw2.supply_line == tw.supply_line
                &&& forall|o: TowerId|
                    o != tower_id ==> final(self).world.spec_get_tower(o) == old(
                        self,
                    ).world.spec_get_tower(o)
                &&& final(self).outbox@.len() == old(self).outbox@.len() + 1
                &&& forall|i: int|
                    0 <= i < old(self).outbox@.len() ==> final(self).outbox@[i] == old(
                        self,
                    ).outbox@[i]
                &&& final(self).outbox@.last() matches Dispatch::ChunkInput(c, ci) && c
                    == tower_id.spec_chunk() && (ci matches ChunkInput::DeployForce {
                    tower_id: rel,
                    path: p,
                } && rel == tower_id.spec_rel() && p.hops@ == path.hops@)
                &&& !player_id.spec_is_bot() ==> (final(self).spec_player(player_id) matches Some(
                    p2,
                ) && old(self).spec_player(player_id) matches Some(p) && p2 == Player {
                    alerts: crate::player::Alerts { deployed_any_force: true, ..p.alerts },
                    ..p
                })
                &&& player_id.spec_is_bot() ==> final(self).players == old(self).players
                &&& forall|o: PlayerId|
                    o != player_id ==> final(self).spec_player(o) == old(self).spec_player(o)
            },
    {
        let tower = match self.world.get(tower_id) {
            Some(t) => t,
            None => {
                return Err(TowerError::NoTower);
            }
        };
        let owner_matches = match tower.player_id {
            Some(p) => p == player_id,
            None => false,
        };
        if !owner_matches {
            return Err(TowerError::NotOwned);
        }
        let strength = tower.force_units();
        if strength.is_empty() {
            return Err(TowerError::EmptyForce);
        }
        let max_edge_distance = strength.max_edge_distance();
        let validated = match path.validate(&self.world, tower_id, max_edge_distance) {
            Ok(p) => p,
            Err(e) => {
                return Err(e);
            }
        };
        if !player_id.is_bot() {
            let player = match self.take_player(player_id) {
                Some(p) => p,
                None => {
                    return Err(TowerError::NonexistentPlayer);
                }
            };
            let updated = Player {
                alerts: crate::player::Alerts { deployed_any_force: true, ..player.alerts },
                ..player
            };
            self.set_player(player_id, updated);
        }
        let mut t = self.world.take(tower_id).unwrap();
        let _ = t.take_force_units();
        self.world.insert(tower_id, t);
        let (chunk, rel) = tower_id.split();
        self.outbox.push(
            Dispatch::ChunkInput(chunk, ChunkInput::DeployForce { tower_id: rel, path: validated }),
        );
        Ok(())
    }
}

} // verus!

verus! {

impl TowerService {
    /// The outcome `set_supply_line` owes: the tower must exist, belong
    /// to the player, and generate deployable units; a given path must
    /// validate against the tower's ranged reach; a human player must be
    /// known so the alert can be raised.
    pub open spec fn spec_supply_status(
        self,
        player_id: PlayerId,
        tower_id: TowerId,
        path: Option<Path>,
    ) -> Result<(), TowerError> {
        match self.world.spec_get_tower(tower_id) {
            None => Err(TowerError::NoTower),
            Some(tw) => if tw.player_id != Some(player_id) {
                Err(TowerError::NotOwned)
            } else if !(exists|u: Unit|
                u.spec_is_mobile(Some(tw.tower_type)) && (#[trigger] tw.spec_unit_generation(
                    u,
                )) is Some) {
                Err(TowerError::InvalidSupplyLine)
            } else if path matches Some(p) && !spec_valid_path(
                self.world,
                p.hops@,
                tower_id,
                spec_edge_limit(tw.tower_type.spec_ranged_distance()),
            ) {
                Err(TowerError::InvalidPath)
            } else if !player_id.spec_is_bot() && self.spec_player(player_id) is None {
                Err(TowerError::NonexistentPlayer)
            } else {
                Ok(())
            },
        }
    }

    /// The supply line the tower ends up with: the validated path, unless
    /// it repeats the current line, which clears it instead.
    pub open spec fn spec_effective_supply(tw: Tower, path: Option<Path>) -> bool {
        path is None || (path matches Some(p) && tw.supply_line matches Some(c) && c.hops@
            == p.hops@)
    }

    /// Replaces the tower's default egress path. On success the tower's
    /// supply line becomes the given path, or is cleared when the path is
    /// absent or repeats the current line; the matching alert is raised
    /// for a human owner and exactly one `SetSupplyLine` message goes to
    /// the owning chunk. Errors change nothing.
    pub fn set_supply_line(
        &mut self,
        player_id: PlayerId,
        tower_id: TowerId,
        path: Option<Path>,
    ) -> (r: Result<(), TowerError>)
        requires
            old(self).wf(),
        ensures
            final(self).wf(),
            r == old(self).spec_supply_status(player_id, tower_id, path),
            r is Err ==> *final(self) == *old(self),
            r is Ok ==> {
                let cleared = Self::spec_effective_supply(
                    old(self).world.spec_get_tower(tower_id)->0,
                    path,
                );
                &&& final(self).world.spec_get_tower(tower_id) matches Some(tw2)
                    && old(self).world.spec_get_tower(tower_id) matches Some(tw) && (if cleared {
                    tw2.supply_line is None
                } else {
                    tw2.supply_line matches Some(q) && path matches Some(p) && q.hops@ == p.hops@
                }) && tw2.player_id == tw.player_id && tw2.tower_type == tw.tower_type
                    && tw2.delay == tw.delay && tw2.units == tw.units
                &&& forall|o: TowerId|
                    o != tower_id ==> final(self).world.spec_get_tower(o) == old(
                        self,
                    ).world.spec_get_tower(o)
                &&& final(self).outbox@.len() == old(self).outbox@.len() + 1
                &&& forall|i: int|
                    0 <= i < old(self).outbox@.len() ==> final(self).outbox@[i] == old(
                        self,
                    ).outbox@[i]
                &&& final(self).outbox@.last() matches Dispatch::ChunkInput(c, ci) && c
                    == tower_id.spec_chunk() && (ci matches ChunkInput::SetSupplyLine {
                    tower_id: rel,
                    path: sent,
                } && rel == tower_id.spec_rel() && (if cleared {
                    sent is None
                } else {
                    sent matches Some(q) && path matches Some(p) && q.hops@ == p.hops@
                }))
                &&& !player_id.spec_is_bot() ==> (final(self).spec_player(player_id) matches Some(
                    p2,
                ) && old(self).spec_player(player_id) matches Some(pl) && p2 == Player {
                    alerts: crate::player::Alerts {
                        set_any_supply_line: pl.alerts.set_any_supply_line || !cleared,
                        unset_any_supply_line: pl.alerts.unset_any_supply_line || cleared,
                        ..pl.alerts
                    },
                    ..pl
                })
                &&& player_id.spec_is_bot() ==> final(self).players == old(self).players
                &&& forall|o: PlayerId|
                    o != player_id ==> final(self).spec_player(o) == old(self).spec_player(o)
            },
    {
        let tower = match self.world.get(tower_id) {
            Some(t) => t,
            None => {
                return Err(TowerError::NoTower);
            }
        };
        let owner_matches = match tower.player_id {
            Some(p) => p == player_id,
            None => false,
        };
        if !owner_matches {
            return Err(TowerError::NotOwned);
        }
        if !tower.generates_mobile_units() {
            return Err(TowerError::InvalidSupplyLine);
        }
        let max_edge_distance = tower.tower_type.ranged_distance();
        let mut effective: Option<Path> = None;
        if let Some(p) = path {
            let validated = match p.validate(&self.world, tower_id, max_edge_distance) {
                Ok(v) => v,
                Err(e) => {
                    return Err(e);
                }
            };
            let repeats = match &tower.supply_line {
                Some(current) => current.same_as(&validated),
                None => false,
            };
            if !repeats {
                effective = Some(validated);
            }
        }
        if !player_id.is_bot() {
            let player = match self.take_player(player_id) {
                Some(p) => p,
                None => {
                    return Err(TowerError::NonexistentPlayer);
                }
            };
            let set_flag = effective.is_some();
            let updated = Player {
                alerts: crate::player::Alerts {
                    set_any_supply_line: player.alerts.set_any_supply_line || set_flag,
                    unset_any_supply_line: player.alerts.unset_any_supply_line || !set_flag,
                    ..player.alerts
                },
                ..player
            };
            self.set_player(player_id, updated);
        }
        let mut t = self.world.take(tower_id).unwrap();
        let sent = match &effective {
            Some(p) => Some(Path { hops: p.hops.clone() }),
            None => None,
        };
        t.supply_line = effective;
        self.world.insert(tower_id, t);
        let (chunk, rel) = tower_id.split();
        self.outbox.push(
            Dispatch::ChunkInput(chunk, ChunkInput::SetSupplyLine { tower_id: rel, path: sent }),
        );
        Ok(())
    }
}

} // verus!

verus! {

impl TowerService {
    /// The outcome `upgrade_tower` owes: the tower must exist, belong to
    /// the known player, and be active; the target must either be a
    /// direct upgrade whose prerequisites the player meets, or the
    /// current type's basis for an explicit downgrade.
    pub open spec fn spec_upgrade_status(
        self,
        player_id: PlayerId,
        tower_id: TowerId,
        upgrade: TowerType,
    ) -> Result<(), TowerError> {
        match self.world.spec_get_tower(tower_id) {
            None => Err(TowerError::NoTower),
            Some(tw) => if tw.player_id != Some(player_id) {
                Err(TowerError::NotOwned)
            } else if tw.delay is Some {
                Err(TowerError::UpgradePending)
            } else {
                match self.spec_player(player_id) {
                    None => Err(TowerError::NonexistentPlayer),
                    Some(pl) => if tw.tower_type.spec_can_upgrade_to(upgrade) {
                        if !(forall|p: TowerType|
                            (#[trigger] pl.tower_counts.spec_get(p)) >= upgrade.spec_prerequisite(
                                p,
                            )) {
                            Err(TowerError::MissingPrerequisite)
                        } else {
                            Ok(())
                        }
                    } else if tw.tower_type.spec_basis() != upgrade {
                        Err(TowerError::InvalidUpgradePath)
                    } else {
                        Ok(())
                    },
                }
            },
        }
    }

    /// Upgrades or downgrades the tower. On success the tower takes the
    /// target type with its upgrade delay pending, its units are clamped
    /// to the new capacities, the player's upgrade alert is raised for a
    /// direct upgrade (never for a downgrade), and exactly one
    /// `UpgradeTower` message goes to the owning chunk. Errors change
    /// nothing.
    pub fn upgrade_tower(&mut self, player_id: PlayerId, tower_id: TowerId, upgrade: TowerType) -> (
        r: Result<(), TowerError>)
        requires
            old(self).wf(),
        ensures
            final(self).wf(),
            r == old(self).spec_upgrade_status(player_id, tower_id, upgrade),
            r is Err ==> *final(self) == *old(self),
            r is Ok ==> {
                let was_upgrade = old(self).world.spec_get_tower(
                    tower_id,
                )->0.tower_type.spec_can_upgrade_to(upgrade);
                &&& final(self).world.spec_get_tower(tower_id) matches Some(tw2)
                    && old(self).world.spec_get_tower(tower_id) matches Some(tw)
                    && tw2.tower_type == upgrade && tw2.delay == Some(upgrade.spec_upgrade_delay())
                    && tw2.player_id == tw.player_id && tw2.supply_line == tw.supply_line && (
                forall|u: Unit|
                    tw2.units.spec_get(u) == tw.units.spec_reconciled(upgrade, true, u))
                &&& forall|o: TowerId|
                    o != tower_id ==> final(self).world.spec_get_tower(o) == old(
                        self,
                    ).world.spec_get_tower(o)
                &&& final(self).outbox@.len() == old(self).outbox@.len() + 1
                &&& forall|i: int|
                    0 <= i < old(self).outbox@.len() ==> final(self).outbox@[i] == old(
                        self,
                    ).outbox@[i]
                &&& final(self).outbox@.last() == Dispatch::ChunkInput(
                    tower_id.spec_chunk(),
                    ChunkInput::UpgradeTower {
                        tower_id: tower_id.spec_rel(),
                        tower_type: upgrade,
                    },
                )
                &&& final(self).spec_player(player_id) matches Some(p2) && old(self).spec_player(
                    player_id,
                ) matches Some(pl) && p2 == Player {
                    alerts: crate::player::Alerts {
                        upgraded_any_tower: pl.alerts.upgraded_any_tower || was_upgrade,
                        ..pl.alerts
                    },
                    ..pl
                }
                &&& forall|o: PlayerId|
                    o != player_id ==> final(self).spec_player(o) == old(self).spec_player(o)
            },
    {
        let tower = match self.world.get(tower_id) {
            Some(t) => t,
            None => {
                return Err(TowerError::NoTower);
            }
        };
        let owner_matches = match tower.player_id {
            Some(p) => p == player_id,
            None => false,
        };
        if !owner_matches {
            return Err(TowerError::NotOwned);
        }
        if !tower.active() {
            return Err(TowerError::UpgradePending);
        }
        let current_type = tower.tower_type;
        let was_upgrade = current_type.can_upgrade_to(upgrade);
        {
            let player = match self.player(player_id) {
                Some(p) => p,
                None => {
                    return Err(TowerError::NonexistentPlayer);
                }
            };
            proof {
                old(self).lemma_player_wf(player_id);
            }
            if was_upgrade {
                if !upgrade.has_prerequisites(&player.tower_counts) {
                    return Err(TowerError::MissingPrerequisite);
                }
            } else if !(current_type.basis() == upgrade) {
                return Err(TowerError::InvalidUpgradePath);
            }
        }
        let player = self.take_player(player_id).unwrap();
        let updated = Player {
            alerts: crate::player::Alerts {
                upgraded_any_tower: player.alerts.upgraded_any_tower || was_upgrade,
                ..player.alerts
            },
            ..player
        };
        self.set_player(player_id, updated);
        let mut t = self.world.take(tower_id).unwrap();
        t.tower_type = upgrade;
        t.delay = Some(upgrade.upgrade_delay());
        t.reconcile_units();
        self.world.insert(tower_id, t);
        let (chunk, rel) = tower_id.split();
        self.outbox.push(
            Dispatch::ChunkInput(
                chunk,
                ChunkInput::UpgradeTower { tower_id: rel, tower_type: upgrade },
            ),
        );
        Ok(())
    }
}

} // verus!

verus! {

/// Removing one entry of a duplicate-free id sequence keeps it
/// duplicate-free; membership of other ids is unchanged and the removed
/// id is gone.
proof fn lemma_ids_remove(s: Seq<PlayerId>, k: int)
    requires
        forall|i: int, j: int| 0 <= i < j < s.len() ==> s[i] != s[j],
        0 <= k < s.len(),
    ensures
        forall|i: int, j: int| 0 <= i < j < s.remove(k).len() ==> s.remove(k)[i] != s.remove(k)[j],
        !s.remove(k).contains(s[k]),
        forall|x: PlayerId| x != s[k] ==> s.remove(k).contains(x) == s.contains(x),
{
    let t = s.remove(k);
    assert(forall|i: int| 0 <= i < k ==> t[i] == s[i]);
    assert(forall|i: int| k <= i < t.len() ==> t[i] == s[i + 1]);
    assert forall|i: int, j: int| 0 <= i < j < t.len() implies t[i] != t[j] by {
        let pi: int = if i < k {
            i
        } else {
            i + 1
        };
        let pj: int = if j < k {
            j
        } else {
            j + 1
        };
        assert(t[i] == s[pi] && t[j] == s[pj] && pi < pj);
    }
    if t.contains(s[k]) {
        let i = choose|i: int| 0 <= i < t.len() && t[i] == s[k];
        let pi: int = if i < k {
            i
        } else {
            i + 1
        };
        assert(s[pi] == s[k] && pi != k);
    }
    assert forall|x: PlayerId| x != s[k] implies t.contains(x) == s.contains(x) by {
        if s.contains(x) {
            let i = choose|i: int| 0 <= i < s.len() && s[i] == x;
            let ti: int = if i < k {
                i
            } else {
                i - 1
            };
            assert(i != k);
            assert(t[ti] == x);
        } else {
            if t.contains(x) {
                let i = choose|i: int| 0 <= i < t.len() && t[i] == x;
                let pi: int = if i < k {
                    i
                } else {
                    i + 1
                };
                assert(s[pi] == x);
            }
        }
    }
}

impl TowerService {
    /// The allies recorded for a player, empty if the player is unknown.
    pub open spec fn spec_allies_of(self, id: PlayerId) -> Seq<PlayerId> {
        match self.spec_player(id) {
            Some(p) => p.allies@,
            None => Seq::empty(),
        }
    }

    /// The player currently counts `other` among their allies.
    pub fn allies_contain(&self, id: PlayerId, other: PlayerId) -> (r: bool)
        requires
            self.wf(),
        ensures
            r == self.spec_allies_of(id).contains(other),
    {
        match self.player(id) {
            Some(p) => p.has_ally(other),
            None => false,
        }
    }

    /// Records `b` among `a`'s allies, if `a` is known and the entry is
    /// new. Only `a`'s ally list changes.
    fn add_ally_entry(&mut self, a: PlayerId, b: PlayerId)
        requires
            old(self).wf(),
        ensures
            final(self).wf(),
            old(self).spec_has_player(a) ==> final(self).spec_allies_of(a).contains(b),
            final(self).spec_player(a) matches Some(p2) ==> (old(self).spec_player(a) matches Some(
                p,
            ) && p2.alive == p.alive && p2.alerts == p.alerts && p2.towers == p.towers
                && p2.tower_counts == p.tower_counts),
            forall|o: PlayerId| o != a ==> final(self).spec_player(o) == old(self).spec_player(o),
            final(self).spec_has_player(a) == old(self).spec_has_player(a),
            forall|o: PlayerId|
                final(self).spec_has_player(o) == old(self).spec_has_player(o),
            final(self).world == old(self).world,
            final(self).active == old(self).active,
            final(self).outbox == old(self).outbox,
    {
        if self.allies_contain(a, b) {
            return ;
        }
        let player = match self.take_player(a) {
            Some(p) => p,
            None => {
                return ;
            }
        };
        proof {
            old(self).lemma_player_wf(a);
        }
        let mut updated = player;
        updated.allies.push(b);
        proof {
            assert(updated.allies@.last() == b);
        }
        self.set_player(a, updated);
    }

    /// Strikes `b` from `a`'s allies, if present. Only `a`'s ally list
    /// changes.
    fn remove_ally_entry(&mut self, a: PlayerId, b: PlayerId)
        requires
            old(self).wf(),
        ensures
            final(self).wf(),
            !final(self).spec_allies_of(a).contains(b),
            final(self).spec_player(a) matches Some(p2) ==> (old(self).spec_player(a) matches Some(
                p,
            ) && p2.alive == p.alive && p2.alerts == p.alerts && p2.towers == p.towers
                && p2.tower_counts == p.tower_counts && (forall|x: PlayerId|
                x != b ==> p2.allies@.contains(x) == p.allies@.contains(x))),
            forall|o: PlayerId| o != a ==> final(self).spec_player(o) == old(self).spec_player(o),
            final(self).spec_has_player(a) == old(self).spec_has_player(a),
            forall|o: PlayerId|
                final(self).spec_has_player(o) == old(self).spec_has_player(o),
            final(self).world == old(self).world,
            final(self).active == old(self).active,
            final(self).outbox == old(self).outbox,
    {
        let player = match self.take_player(a) {
            Some(p) => p,
            None => {
                return ;
            }
        };
        proof {
            old(self).lemma_player_wf(a);
        }
        let mut updated = player;
        let mut k: usize = 0;
        let mut found: Option<usize> = None;
        while k < updated.allies.len()
            invariant
                k <= updated.allies@.len(),
                found matches Some(f) ==> f < updated.allies@.len() && updated.allies@[f as int]
                    == b,
                found is None ==> forall|j: int| 0 <= j < k ==> updated.allies@[j] != b,
            decreases updated.allies@.len() - k,
        {
            if found.is_none() && updated.allies[k] == b {
                found = Some(k);
            }
            k = k + 1;
        }
        if let Some(f) = found {
            proof {
                lemma_ids_remove(updated.allies@, f as int);
            }
            updated.allies.remove(f);
        }
        self.set_player(a, updated);
    }

    /// The outcome `alliance` owes: the issuing player must be known, and
    /// the regulator must report both players active.
    pub open spec fn spec_alliance_status(self, player_id: PlayerId, with: PlayerId) -> Result<
        (),
        TowerError,
    > {
        if self.spec_player(player_id) is None {
            Err(TowerError::NonexistentPlayer)
        } else if !(self.active@.contains(player_id) && self.active@.contains(with)) {
            Err(TowerError::InactiveAlly)
        } else {
            Ok(())
        }
    }

    /// Both players have now declared the alliance: the issuer had not
    /// declared it yet while the counterparty already had.
    pub open spec fn spec_new_alliance(self, player_id: PlayerId, with: PlayerId, brk: bool) -> bool {
        !brk && !self.spec_allies_of(player_id).contains(with) && self.spec_allies_of(
            with,
        ).contains(player_id)
    }

    /// The player messages an alliance call emits: mutual `NewAlliance`
    /// notifications when the alliance becomes mutual, then `RemoveAlly`
    /// on both sides for a break, or `AddAlly` on the issuer's side alone
    /// for a one-sided declaration.
    pub open spec fn spec_alliance_msgs(
        self,
        player_id: PlayerId,
        with: PlayerId,
        brk: bool,
    ) -> Seq<Dispatch> {
        let pre: Seq<Dispatch> = if self.spec_new_alliance(player_id, with, brk) {
            seq![
                Dispatch::PlayerInput(player_id, PlayerInput::NewAlliance(with)),
                Dispatch::PlayerInput(with, PlayerInput::NewAlliance(player_id)),
            ]
        } else {
            Seq::empty()
        };
        let post: Seq<Dispatch> = if brk {
            seq![
                Dispatch::PlayerInput(player_id, PlayerInput::RemoveAlly(with)),
                Dispatch::PlayerInput(with, PlayerInput::RemoveAlly(player_id)),
            ]
        } else {
            seq![Dispatch::PlayerInput(player_id, PlayerInput::AddAlly(with))]
        };
        pre + post
    }

    /// Declares or breaks an alliance. Breaking is mutual; adding is
    /// one-sided until the counterparty also declares it. Exactly the
    /// messages of [`TowerService::spec_alliance_msgs`] are emitted, in
    /// that order. Errors change nothing.
    pub fn alliance(&mut self, player_id: PlayerId, with: PlayerId, break_alliance: bool) -> (r:
        Result<(), TowerError>)
        requires
            old(self).wf(),
        ensures
            final(self).wf(),
            r == old(self).spec_alliance_status(player_id, with),
            r is Err ==> *final(self) == *old(self),
            r is Ok ==> {
                &&& final(self).outbox@ == old(self).outbox@ + old(self).spec_alliance_msgs(
                    player_id,
                    with,
                    break_alliance,
                )
                &&& final(self).world == old(self).world
                &&& final(self).active == old(self).active
                &&& break_alliance ==> !final(self).spec_allies_of(player_id).contains(with)
                    && !final(self).spec_allies_of(with).contains(player_id)
                &&& !break_alliance ==> final(self).spec_allies_of(player_id).contains(with)
            },
    {
        if self.find_player(player_id).is_none() {
            return Err(TowerError::NonexistentPlayer);
        }
        if !(self.regulator_active(player_id) && self.regulator_active(with)) {
            return Err(TowerError::InactiveAlly);
        }
        let new_alliance = !break_alliance && !self.allies_contain(player_id, with)
            && self.allies_contain(with, player_id);
        let ghost base = self.outbox@;
        if new_alliance {
            self.outbox.push(Dispatch::PlayerInput(player_id, PlayerInput::NewAlliance(with)));
            self.outbox.push(Dispatch::PlayerInput(with, PlayerInput::NewAlliance(player_id)));
        }
        if break_alliance {
            self.outbox.push(Dispatch::PlayerInput(player_id, PlayerInput::RemoveAlly(with)));
            self.outbox.push(Dispatch::PlayerInput(with, PlayerInput::RemoveAlly(player_id)));
            self.remove_ally_entry(player_id, with);
            self.remove_ally_entry(with, player_id);
        } else {
            self.outbox.push(Dispatch::PlayerInput(player_id, PlayerInput::AddAlly(with)));
            self.add_ally_entry(player_id, with);
        }
        proof {
            assert(final(self).outbox@ =~= base + old(self).spec_alliance_msgs(
                player_id,
                with,
                break_alliance,
            ));
        }
        Ok(())
    }
}

} // verus!

verus! {

/// Some dispatch at or after `lo` is a `Destroy` batch for the chunk.
pub open spec fn spec_destroy_listed(outbox: Seq<Dispatch>, lo: int, c: crate::id::ChunkId) -> bool {
    exists|i: int|
        lo <= i < outbox.len() && ((#[trigger] outbox[i]) matches Dispatch::ChunkMaintenance(
            c2,
            ChunkMaintenance::Destroy { .. },
        ) && c2 == c)
}

impl TowerService {
    /// Destroys all the towers, removing each and batching one `Destroy`
    /// message per owning chunk.
    pub fn destroy(&mut self, tower_ids: Vec<TowerId>)
        requires
            old(self).wf(),
            forall|i: int| 0 <= i < tower_ids@.len() ==> (#[trigger] tower_ids@[i]).in_world(),
        ensures
            final(self).wf(),
            forall|i: int|
                0 <= i < tower_ids@.len() ==> !final(self).world.spec_has_tower(
                    #[trigger] tower_ids@[i],
                ),
            forall|o: TowerId|
                !tower_ids@.contains(o) ==> final(self).world.spec_get_tower(o) == old(
                    self,
                ).world.spec_get_tower(o),
            final(self).players == old(self).players,
            final(self).active == old(self).active,
            final(self).outbox@.len() >= old(self).outbox@.len(),
            forall|i: int|
                0 <= i < old(self).outbox@.len() ==> final(self).outbox@[i] == old(
                    self,
                ).outbox@[i],
            forall|i: int|
                old(self).outbox@.len() <= i < final(self).outbox@.len() ==> ((
                #[trigger] final(self).outbox@[i]) matches Dispatch::ChunkMaintenance(
                    c,
                    ChunkMaintenance::Destroy { tower_ids: rels },
                ) && rels@ == crate::flood::spec_chunk_rels(
                    tower_ids@,
                    c,
                    tower_ids@.len() as int,
                )),
            forall|q: int|
                0 <= q < tower_ids@.len() ==> spec_destroy_listed(
                    final(self).outbox@,
                    old(self).outbox@.len() as int,
                    (#[trigger] tower_ids@[q]).spec_chunk(),
                ),
    {
        let ghost orig = *self;
        let mut i: usize = 0;
        while i < tower_ids.len()
            invariant
                i <= tower_ids@.len(),
                self.wf(),
                self.players == orig.players,
                self.active == orig.active,
                self.outbox == orig.outbox,
                forall|j: int|
                    0 <= j < i ==> !self.world.spec_has_tower(#[trigger] tower_ids@[j]),
                forall|o: TowerId|
                    !tower_ids@.subrange(0, i as int).contains(o) ==> self.world.spec_get_tower(o)
                        == orig.world.spec_get_tower(o) && self.world.spec_has_tower(o)
                        == orig.world.spec_has_tower(o),
            decreases tower_ids@.len() - i,
        {
            let id = tower_ids[i];
            self.world.remove(id);
            proof {
                assert(tower_ids@.subrange(0, i as int + 1) =~= tower_ids@.subrange(
                    0,
                    i as int,
                ).push(id));
            }
            i = i + 1;
        }
        proof {
            assert(tower_ids@.subrange(0, tower_ids@.len() as int) =~= tower_ids@);
        }
        let buckets = crate::flood::group(&tower_ids);
        let ghost base = self.outbox@.len() as int;
        let ghost world_done = self.world;
        let mut k: usize = 0;
        while k < buckets.len()
            invariant
                k <= buckets@.len(),
                self.world == world_done,
                self.players == orig.players,
                self.active == orig.active,
                self.outbox@.len() == base + k,
                base == orig.outbox@.len(),
                forall|i2: int| 0 <= i2 < base ==> self.outbox@[i2] == orig.outbox@[i2],
                forall|a: int|
                    0 <= a < k ==> ((#[trigger] self.outbox@[base + a])
                        matches Dispatch::ChunkMaintenance(
                        c,
                        ChunkMaintenance::Destroy { tower_ids: rels },
                    ) && c == buckets@[a].0 && rels@ == buckets@[a].1@),
            decreases buckets@.len() - k,
        {
            let chunk = buckets[k].0;
            let mut rels: Vec<crate::id::RelativeTowerId> = Vec::new();
            let mut j: usize = 0;
            while j < buckets[k].1.len()
                invariant
                    k < buckets@.len(),
                    j <= buckets@[k as int].1@.len(),
                    rels@ =~= buckets@[k as int].1@.subrange(0, j as int),
                decreases buckets@[k as int].1@.len() - j,
            {
                rels.push(buckets[k].1[j]);
                proof {
                    assert(rels@ =~= buckets@[k as int].1@.subrange(0, j as int + 1));
                }
                j = j + 1;
            }
            proof {
                assert(rels@ =~= buckets@[k as int].1@);
            }
            self.outbox.push(
                Dispatch::ChunkMaintenance(chunk, ChunkMaintenance::Destroy { tower_ids: rels }),
            );
            k = k + 1;
        }
        proof {
            assert forall|i2: int| base <= i2 < self.outbox@.len() implies ((
            #[trigger] self.outbox@[i2]) matches Dispatch::ChunkMaintenance(
                c,
                ChunkMaintenance::Destroy { tower_ids: rels },
            ) && rels@ == crate::flood::spec_chunk_rels(
                tower_ids@,
                c,
                tower_ids@.len() as int,
            )) by {
                let a = i2 - base;
                assert((self.outbox@[base + a] matches Dispatch::ChunkMaintenance(
                    c,
                    ChunkMaintenance::Destroy { tower_ids: rels },
                ) && c == buckets@[a].0 && rels@ == buckets@[a].1@));
            }
            assert(base == old(self).outbox@.len());
            assert forall|q: int| 0 <= q < tower_ids@.len() implies spec_destroy_listed(
                self.outbox@,
                old(self).outbox@.len() as int,
                (#[trigger] tower_ids@[q]).spec_chunk(),
            ) by {
                assert(crate::flood::spec_chunk_listed(buckets@, tower_ids@[q].spec_chunk()));
                let a = choose|a: int|
                    0 <= a < buckets@.len() && (#[trigger] buckets@[a]).0
                        == tower_ids@[q].spec_chunk();
                assert((self.outbox@[base + a] matches Dispatch::ChunkMaintenance(
                    c2,
                    ChunkMaintenance::Destroy { .. },
                ) && c2 == tower_ids@[q].spec_chunk()));
            }
        }
    }

    /// Materializes all the cells that are not yet materialized, batching
    /// one `Generate` message per owning chunk.
    pub fn generate(&mut self, tower_ids: Vec<TowerId>)
        requires
            old(self).wf(),
            forall|i: int| 0 <= i < tower_ids@.len() ==> (#[trigger] tower_ids@[i]).in_world(),
        ensures
            final(self).wf(),
            forall|i: int|
                0 <= i < tower_ids@.len() ==> final(self).world.spec_has_tower(
                    #[trigger] tower_ids@[i],
                ),
            forall|o: TowerId|
                old(self).world.spec_has_tower(o) ==> final(self).world.spec_get_tower(o) == old(
                    self,
                ).world.spec_get_tower(o),
            forall|o: TowerId|
                !tower_ids@.contains(o) ==> final(self).world.spec_get_tower(o) == old(
                    self,
                ).world.spec_get_tower(o),
            forall|o: TowerId|
                !old(self).world.spec_has_tower(o) && (#[trigger] final(self).world.spec_get_tower(
                    o,
                )) is Some ==> final(self).world.spec_get_tower(o)->0.player_id is None
                    && final(self).world.spec_get_tower(o)->0.units.spec_get(Unit::Ruler) == 0
                    && final(self).world.spec_get_tower(o)->0.units.spec_get(Unit::Shield) == 0
                    && final(self).world.spec_get_tower(o)->0.supply_line is None,
            final(self).players == old(self).players,
            final(self).active == old(self).active,
            final(self).outbox@.len() >= old(self).outbox@.len(),
            forall|i: int|
                0 <= i < old(self).outbox@.len() ==> final(self).outbox@[i] == old(
                    self,
                ).outbox@[i],
            forall|i: int|
                old(self).outbox@.len() <= i < final(self).outbox@.len() ==> ((
                #[trigger] final(self).outbox@[i]) matches Dispatch::ChunkInput(
                    c,
                    ChunkInput::Generate { tower_ids: rels },
                ) && rels@ == crate::flood::spec_chunk_rels(
                    tower_ids@,
                    c,
                    tower_ids@.len() as int,
                )),
    {
        let ghost orig = *self;
        let mut i: usize = 0;
        while i < tower_ids.len()
            invariant
                i <= tower_ids@.len(),
                forall|q: int| 0 <= q < tower_ids@.len() ==> (#[trigger] tower_ids@[q]).in_world(),
                self.wf(),
                self.players == orig.players,
                self.active == orig.active,
                self.outbox == orig.outbox,
                forall|j: int|
                    0 <= j < i ==> self.world.spec_has_tower(#[trigger] tower_ids@[j]),
                forall|o: TowerId|
                    orig.world.spec_has_tower(o) ==> self.world.spec_get_tower(o)
                        == orig.world.spec_get_tower(o),
                forall|o: TowerId|
                    !tower_ids@.subrange(0, i as int).contains(o) ==> self.world.spec_get_tower(o)
                        == orig.world.spec_get_tower(o),
                forall|o: TowerId|
                    !orig.world.spec_has_tower(o) && (#[trigger] self.world.spec_get_tower(
                        o,
                    )) is Some ==> self.world.spec_get_tower(o)->0.player_id is None
                        && self.world.spec_get_tower(o)->0.units.spec_get(Unit::Ruler) == 0
                        && self.world.spec_get_tower(o)->0.units.spec_get(Unit::Shield) == 0
                        && self.world.spec_get_tower(o)->0.supply_line is None,
            decreases tower_ids@.len() - i,
        {
            let id = tower_ids[i];
            if !self.world.contains(id) {
                self.world.insert(id, Tower::new(id));
            }
            proof {
                assert(tower_ids@.subrange(0, i as int + 1) =~= tower_ids@.subrange(
                    0,
                    i as int,
                ).push(id));
            }
            i = i + 1;
        }
        proof {
            assert(tower_ids@.subrange(0, tower_ids@.len() as int) =~= tower_ids@);
        }
        let buckets = crate::flood::group(&tower_ids);
        let ghost base = self.outbox@.len() as int;
        let ghost world_done = self.world;
        let mut k: usize = 0;
        while k < buckets.len()
            invariant
                k <= buckets@.len(),
                self.world == world_done,
                self.players == orig.players,
                self.active == orig.active,
                self.outbox@.len() == base + k,
                base == orig.outbox@.len(),
                forall|i2: int| 0 <= i2 < base ==> self.outbox@[i2] == orig.outbox@[i2],
                forall|a: int|
                    0 <= a < k ==> ((#[trigger] self.outbox@[base + a])
                        matches Dispatch::ChunkInput(
                        c,
                        ChunkInput::Generate { tower_ids: rels },
                    ) && c == buckets@[a].0 && rels@ == buckets@[a].1@),
            decreases buckets@.len() - k,
        {
            let chunk = buckets[k].0;
            let mut rels: Vec<crate::id::RelativeTowerId> = Vec::new();
            let mut j: usize = 0;
            while j < buckets[k].1.len()
                invariant
                    k < buckets@.len(),
                    j <= buckets@[k as int].1@.len(),
                    rels@ =~= buckets@[k as int].1@.subrange(0, j as int),
                decreases buckets@[k as int].1@.len() - j,
            {
                rels.push(buckets[k].1[j]);
                proof {
                    assert(rels@ =~= buckets@[k as int].1@.subrange(0, j as int + 1));
                }
                j = j + 1;
            }
            proof {
                assert(rels@ =~= buckets@[k as int].1@);
            }
            self.outbox.push(
                Dispatch::ChunkInput(chunk, ChunkInput::Generate { tower_ids: rels }),
            );
            k = k + 1;
        }
        proof {
            assert forall|i2: int| base <= i2 < self.outbox@.len() implies ((
            #[trigger] self.outbox@[i2]) matches Dispatch::ChunkInput(
                c,
                ChunkInput::Generate { tower_ids: rels },
            ) && rels@ == crate::flood::spec_chunk_rels(
                tower_ids@,
                c,
                tower_ids@.len() as int,
            )) by {
                let a = i2 - base;
                assert((self.outbox@[base + a] matches Dispatch::ChunkInput(
                    c,
                    ChunkInput::Generate { tower_ids: rels },
                ) && c == buckets@[a].0 && rels@ == buckets@[a].1@));
            }
        }
    }

    /// The cells the center walk from `t` collects: every unmaterialized
    /// cell not already seen, from `t` toward the world center, in walk
    /// order; it stops at the first materialized cell, at a repeat, or
    /// after the center.
    pub open spec fn spec_traverse_walk(world: World, seen: Set<TowerId>, t: TowerId) -> Seq<
        TowerId,
    >
        decreases t.spec_center_dist(),
    {
        if world.spec_has_tower(t) || seen.contains(t) {
            Seq::empty()
        } else if t.x == crate::id::CENTER_X && t.y == crate::id::CENTER_Y {
            seq![t]
        } else {
            seq![t] + Self::spec_traverse_walk(world, seen.insert(t), t.spec_connectivity_id())
        }
    }

    /// Walks from the cell toward the world center, appending exactly the
    /// walk's cells: every unmaterialized cell not already collected,
    /// until a materialized tower, a repeat, or the center ends the walk.
    pub fn traverse(
        &self,
        seen: &mut crate::towerset::TowerSet,
        acc: &mut Vec<TowerId>,
        tower_id: TowerId,
    )
        requires
            self.wf(),
            old(seen).wf(),
            tower_id.in_world(),
            forall|i: int| 0 <= i < old(acc)@.len() ==> (#[trigger] old(acc)@[i]).in_world(),
        ensures
            final(seen).wf(),
            final(acc)@ == old(acc)@ + Self::spec_traverse_walk(
                self.world,
                old(seen).spec_as_set(),
                tower_id,
            ),
            forall|i: int|
                0 <= i < final(acc)@.len() ==> (#[trigger] final(acc)@[i]).in_world(),
            forall|i: int|
                old(acc)@.len() <= i < final(acc)@.len() ==> !self.world.spec_has_tower(
                    #[trigger] final(acc)@[i],
                ),
            forall|id: TowerId|
                old(seen).spec_contains(id) ==> final(seen).spec_contains(id),
            forall|id: TowerId|
                (#[trigger] final(seen).spec_contains(id)) == (old(seen).spec_contains(id)
                    || Self::spec_traverse_walk(
                    self.world,
                    old(seen).spec_as_set(),
                    tower_id,
                ).contains(id)),
    {
        let ghost walk = Self::spec_traverse_walk(self.world, old(seen).spec_as_set(), tower_id);
        let ghost base = acc@.len() as int;
        let mut t = tower_id;
        let mut go = true;
        while go
            invariant
                self.wf(),
                seen.wf(),
                t.in_world(),
                base == old(acc)@.len(),
                walk == Self::spec_traverse_walk(
                    self.world,
                    old(seen).spec_as_set(),
                    tower_id,
                ),
                acc@.len() >= base,
                forall|i: int| 0 <= i < base ==> acc@[i] == old(acc)@[i],
                forall|i: int| 0 <= i < acc@.len() ==> (#[trigger] acc@[i]).in_world(),
                forall|i: int|
                    base <= i < acc@.len() ==> !self.world.spec_has_tower(#[trigger] acc@[i]),
                forall|id: TowerId|
                    old(seen).spec_contains(id) ==> seen.spec_contains(id),
                forall|id: TowerId|
                    (#[trigger] seen.spec_contains(id)) == (old(seen).spec_contains(id)
                        || acc@.subrange(base, acc@.len() as int).contains(id)),
                walk =~= acc@.subrange(base, acc@.len() as int) + (if go {
                    Self::spec_traverse_walk(self.world, seen.spec_as_set(), t)
                } else {
                    Seq::empty()
                }),
            decreases t.spec_center_dist(), (if go { 1int } else { 0int }),
        {
            let ghost pre_set = seen.spec_as_set();
            let ghost pre_acc = acc@;
            if self.world.contains(t) {
                go = false;
            } else {
                if !seen.insert(t) {
                    proof {
                        assert(seen.spec_as_set() =~= pre_set);
                        assert(pre_set.contains(t));
                    }
                    go = false;
                } else {
                    acc.push(t);
                    proof {
                        assert(seen.spec_as_set() =~= pre_set.insert(t));
                        assert(acc@.subrange(base, acc@.len() as int) =~= pre_acc.subrange(
                            base,
                            pre_acc.len() as int,
                        ).push(t));
                    }
                    match t.connectivity_id() {
                        Some(n) => {
                            proof {
                                assert(walk =~= acc@.subrange(base, acc@.len() as int)
                                    + Self::spec_traverse_walk(
                                    self.world,
                                    seen.spec_as_set(),
                                    n,
                                ));
                            }
                            t = n;
                        }
                        None => {
                            proof {
                                assert(walk =~= acc@.subrange(base, acc@.len() as int));
                            }
                            go = false;
                        }
                    }
                }
            }
        }
        proof {
            assert(final(acc)@ =~= old(acc)@ + walk) by {
                assert(walk =~= acc@.subrange(base, acc@.len() as int));
                assert(forall|i: int| 0 <= i < base ==> acc@[i] == old(acc)@[i]);
            }
            assert forall|id: TowerId|
                (#[trigger] final(seen).spec_contains(id)) == (old(seen).spec_contains(id)
                    || walk.contains(id)) by {
                assert(walk =~= acc@.subrange(base, acc@.len() as int));
            }
        }
    }
}

} // verus!

verus! {

impl TowerService {
    /// Some entry of the chunk list is the chunk `c`.
    pub open spec fn spec_chunks_has(s: Seq<crate::id::ChunkId>, c: crate::id::ChunkId) -> bool {
        exists|a: int| 0 <= a < s.len() && s[a] == c
    }

    /// Marks the player dead: every chunk holding a tower at entry is told
    /// exactly once to kill the player's towers, each surviving ally is
    /// told the ally died, and finally the player actor itself.
    /// Afterwards the player owns no tower and their tower set is empty.
    pub fn kill_player(&mut self, player_id: PlayerId)
        requires
            old(self).wf(),
            old(self).spec_has_player(player_id),
        ensures
            final(self).wf(),
            final(self).spec_player(player_id) matches Some(p2) && !p2.alive && p2.towers@.len()
                == 0,
            forall|id: TowerId|
                (#[trigger] final(self).world.spec_get_tower(id)) matches Some(t) ==> t.player_id
                    != Some(player_id),
            final(self).outbox@.len() > old(self).outbox@.len(),
            forall|i: int|
                0 <= i < old(self).outbox@.len() ==> final(self).outbox@[i] == old(
                    self,
                ).outbox@[i],
            final(self).outbox@.last() == Dispatch::PlayerMaintenance(
                player_id,
                PlayerMaintenance::Died,
            ),
            // Every chunk holding a tower at entry receives a KillPlayer message.
            forall|j: int|
                0 <= j < old(self).world.towers@.len() ==> exists|i: int|
                    old(self).outbox@.len() <= i < final(self).outbox@.len() && (
                    #[trigger] final(self).outbox@[i]) == Dispatch::ChunkMaintenance(
                        (#[trigger] old(self).world.towers@[j]).0.spec_chunk(),
                        ChunkMaintenance::KillPlayer { player_id },
                    ),
            // No chunk receives the broadcast twice.
            forall|i1: int, i2: int|
                old(self).outbox@.len() <= i1 < i2 < final(self).outbox@.len() ==> ((((
                #[trigger] final(self).outbox@[i1]) is ChunkMaintenance && final(self).outbox@[i1]->ChunkMaintenance_1 is KillPlayer && (
                #[trigger] final(self).outbox@[i2]) is ChunkMaintenance && final(self).outbox@[i2]->ChunkMaintenance_1 is KillPlayer)
                    ==> final(self).outbox@[i1]->ChunkMaintenance_0 != final(self).outbox@[i2]->ChunkMaintenance_0)),
            // Nothing else is dispatched: the broadcast, the ally notices, the death.
            forall|i: int|
                old(self).outbox@.len() <= i < final(self).outbox@.len() ==> ({
                    ||| ((#[trigger] final(self).outbox@[i]) matches Dispatch::ChunkMaintenance(
                        _c,
                        ChunkMaintenance::KillPlayer { player_id: kp },
                    ) && kp == player_id)
                    ||| (final(self).outbox@[i] matches Dispatch::PlayerMaintenance(
                        _a,
                        PlayerMaintenance::RemoveDeadAlly(dp),
                    ) && dp == player_id)
                    ||| final(self).outbox@[i] == Dispatch::PlayerMaintenance(
                        player_id,
                        PlayerMaintenance::Died,
                    )
                }),
            // Every surviving ally of the dead player is notified.
            forall|m: int|
                0 <= m < old(self).spec_player(player_id)->0.allies@.len() && old(
                    self,
                ).spec_has_player(
                    #[trigger] old(self).spec_player(player_id)->0.allies@[m],
                ) && old(self).spec_player(player_id)->0.allies@[m] != player_id
                    ==> exists|i: int|
                    old(self).outbox@.len() <= i < final(self).outbox@.len() && (
                    #[trigger] final(self).outbox@[i]) == Dispatch::PlayerMaintenance(
                        old(self).spec_player(player_id)->0.allies@[m],
                        PlayerMaintenance::RemoveDeadAlly(player_id),
                    ),
    {
        let player = self.take_player(player_id).unwrap();
        proof {
            old(self).lemma_player_wf(player_id);
        }
        let allies_snapshot = {
            let mut v: Vec<PlayerId> = Vec::new();
            let mut k: usize = 0;
            while k < player.allies.len()
                invariant
                    k <= player.allies@.len(),
                    v@ == player.allies@.subrange(0, k as int),
                decreases player.allies@.len() - k,
            {
                v.push(player.allies[k]);
                proof {
                    assert(v@ =~= player.allies@.subrange(0, k as int + 1));
                }
                k = k + 1;
            }
            v
        };
        proof {
            assert(allies_snapshot@ =~= player.allies@);
        }
        let updated = Player {
            alive: false,
            towers: Vec::new(),
            tower_counts: crate::tower_type::TowerArray::new(),
            ..player
        };
        self.set_player(player_id, updated);
        let ghost after_reset = *self;
        let ghost base = self.outbox@.len() as int;
        // Snapshot the chunks before dispatching, so each receives the
        // message exactly once.
        let mut chunks: Vec<crate::id::ChunkId> = Vec::new();
        let mut k: usize = 0;
        while k < self.world.towers.len()
            invariant
                self.wf(),
                k <= self.world.towers@.len(),
                forall|a: int, b: int| 0 <= a < b < chunks@.len() ==> chunks@[a] != chunks@[b],
                forall|j: int|
                    0 <= j < k ==> Self::spec_chunks_has(
                        chunks@,
                        (#[trigger] self.world.towers@[j]).0.spec_chunk(),
                    ),
            decreases self.world.towers@.len() - k,
        {
            let id = self.world.towers[k].0;
            proof {
                assert(self.world.towers@[k as int].0.in_world());
            }
            let (chunk, _rel) = id.split();
            let mut seen = false;
            let mut a: usize = 0;
            while a < chunks.len()
                invariant
                    a <= chunks@.len(),
                    seen ==> Self::spec_chunks_has(chunks@, chunk),
                    !seen ==> forall|b: int| 0 <= b < a ==> chunks@[b] != chunk,
                decreases chunks@.len() - a,
            {
                if chunks[a] == chunk {
                    seen = true;
                }
                a = a + 1;
            }
            if !seen {
                let ghost prev = chunks@;
                chunks.push(chunk);
                proof {
                    assert(chunks@[chunks@.len() - 1] == chunk);
                    assert forall|j: int|
                        0 <= j < k + 1 implies Self::spec_chunks_has(
                        chunks@,
                        (#[trigger] self.world.towers@[j]).0.spec_chunk(),
                    ) by {
                        if j < k {
                            let b = choose|b: int|
                                0 <= b < prev.len() && prev[b] == self.world.towers@[
                                    j
                                ].0.spec_chunk();
                            assert(chunks@[b] == self.world.towers@[j].0.spec_chunk());
                        }
                    }
                }
            }
            k = k + 1;
        }
        let mut k: usize = 0;
        while k < chunks.len()
            invariant
                self.wf(),
                k <= chunks@.len(),
                self.world == after_reset.world,
                self.players == after_reset.players,
                base == after_reset.outbox@.len(),
                self.outbox@.len() == base + k,
                forall|i: int| 0 <= i < base ==> self.outbox@[i] == after_reset.outbox@[i],
                forall|a: int|
                    0 <= a < k ==> (#[trigger] self.outbox@[base + a])
                        == Dispatch::ChunkMaintenance(
                        chunks@[a],
                        ChunkMaintenance::KillPlayer { player_id },
                    ),
            decreases chunks@.len() - k,
        {
            self.outbox.push(
                Dispatch::ChunkMaintenance(
                    chunks[k],
                    ChunkMaintenance::KillPlayer { player_id },
                ),
            );
            k = k + 1;
        }
        let ghost kp_end = self.outbox@.len() as int;
        // Release the player's towers.
        let mut owned: Vec<TowerId> = Vec::new();
        let mut k: usize = 0;
        while k < self.world.towers.len()
            invariant
                self.wf(),
                k <= self.world.towers@.len(),
                forall|i: int| 0 <= i < owned@.len() ==> (#[trigger] owned@[i]).in_world(),
                forall|j: int|
                    0 <= j < k ==> ((#[trigger] self.world.towers@[j]).1.player_id == Some(
                        player_id,
                    ) ==> owned@.contains(self.world.towers@[j].0)),
            decreases self.world.towers@.len() - k,
        {
            let entry_id = self.world.towers[k].0;
            let is_owned = match self.world.towers[k].1.player_id {
                Some(p) => p == player_id,
                None => false,
            };
            if is_owned {
                owned.push(entry_id);
            }
            k = k + 1;
        }
        proof {
            assert forall|id: TowerId|
                (#[trigger] self.world.spec_get_tower(id)) is Some && self.world.spec_get_tower(
                    id,
                )->0.player_id == Some(player_id) implies owned@.contains(id) by {
                let i = choose|i: int|
                    0 <= i < self.world.towers@.len() && (#[trigger] self.world.towers@[i]).0
                        == id;
            }
        }
        let ghost before_release = *self;
        let mut k: usize = 0;
        while k < owned.len()
            invariant
                self.wf(),
                k <= owned@.len(),
                forall|i: int| 0 <= i < owned@.len() ==> (#[trigger] owned@[i]).in_world(),
                self.players == before_release.players,
                self.outbox == before_release.outbox,
                forall|j: int|
                    0 <= j < k ==> (self.world.spec_get_tower(#[trigger] owned@[j]) matches Some(
                        t,
                    ) ==> t.player_id != Some(player_id)),
                forall|o: TowerId|
                    !owned@.contains(o) ==> self.world.spec_get_tower(o)
                        == before_release.world.spec_get_tower(o),
            decreases owned@.len() - k,
        {
            let id = owned[k];
            if let Some(mut t) = self.world.take(id) {
                if match t.player_id {
                    Some(p) => p == player_id,
                    None => false,
                } {
                    let _ = t.units.subtract(Unit::Ruler, 255);
                    let _ = t.units.subtract(Unit::Shield, 255);
                    t.set_player_id(None);
                }
                self.world.insert(id, t);
            }
            k = k + 1;
        }
        proof {
            assert forall|id: TowerId|
                (#[trigger] self.world.spec_get_tower(id)) is Some
                implies self.world.spec_get_tower(id)->0.player_id != Some(player_id) by {
                if !owned@.contains(id) {
                    assert(self.world.spec_get_tower(id)
                        == before_release.world.spec_get_tower(id));
                }
            }
        }
        proof {
            assert(self.outbox@.len() == kp_end);
            assert(forall|a: int|
                0 <= a < chunks@.len() ==> (#[trigger] self.outbox@[base + a])
                    == Dispatch::ChunkMaintenance(
                    chunks@[a],
                    ChunkMaintenance::KillPlayer { player_id },
                ));
        }
        let ghost before_allies = *self;
        // Tell each surviving ally, then the player actor itself.
        let mut k: usize = 0;
        while k < allies_snapshot.len()
            invariant
                self.wf(),
                k <= allies_snapshot@.len(),
                allies_snapshot@ == player.allies@,
                base + chunks@.len() == kp_end,
                forall|a: int|
                    0 <= a < chunks@.len() ==> (#[trigger] before_allies.outbox@[base + a])
                        == Dispatch::ChunkMaintenance(
                        chunks@[a],
                        ChunkMaintenance::KillPlayer { player_id },
                    ),
                forall|id: TowerId|
                    (#[trigger] self.world.spec_get_tower(id)) matches Some(t) ==> t.player_id
                        != Some(player_id),
                self.spec_player(player_id) == before_allies.spec_player(player_id),
                forall|o: PlayerId|
                    self.spec_has_player(o) == before_allies.spec_has_player(o),
                base <= kp_end <= before_allies.outbox@.len(),
                self.outbox@.len() >= before_allies.outbox@.len(),
                forall|i: int|
                    0 <= i < before_allies.outbox@.len() ==> self.outbox@[i]
                        == before_allies.outbox@[i],
                forall|i: int|
                    before_allies.outbox@.len() <= i < self.outbox@.len() ==> ((
                    #[trigger] self.outbox@[i]) matches Dispatch::PlayerMaintenance(
                        _a,
                        PlayerMaintenance::RemoveDeadAlly(dp),
                    ) && dp == player_id),
                forall|m: int|
                    0 <= m < k && before_allies.spec_has_player(
                        #[trigger] allies_snapshot@[m],
                    ) && allies_snapshot@[m] != player_id ==> exists|i: int|
                        before_allies.outbox@.len() <= i < self.outbox@.len() && (
                        #[trigger] self.outbox@[i]) == Dispatch::PlayerMaintenance(
                            allies_snapshot@[m],
                            PlayerMaintenance::RemoveDeadAlly(player_id),
                        ),
            decreases allies_snapshot@.len() - k,
        {
            let ghost pre = self.outbox@;
            let ally = allies_snapshot[k];
            let known = self.find_player(ally).is_some();
            let ghost pushed = known && ally != player_id;
            if known && !(ally == player_id) {
                self.outbox.push(
                    Dispatch::PlayerMaintenance(ally, PlayerMaintenance::RemoveDeadAlly(player_id)),
                );
                proof {
                    assert(self.outbox@[self.outbox@.len() - 1] == Dispatch::PlayerMaintenance(
                        ally,
                        PlayerMaintenance::RemoveDeadAlly(player_id),
                    ));
                }
                self.remove_ally_entry(ally, player_id);
            }
            proof {
                assert(forall|i: int| 0 <= i < pre.len() ==> self.outbox@[i] == pre[i]);
                assert forall|m: int|
                    0 <= m < k + 1 && before_allies.spec_has_player(
                        #[trigger] allies_snapshot@[m],
                    ) && allies_snapshot@[m] != player_id implies exists|i: int|
                    before_allies.outbox@.len() <= i < self.outbox@.len() && (
                    #[trigger] self.outbox@[i]) == Dispatch::PlayerMaintenance(
                        allies_snapshot@[m],
                        PlayerMaintenance::RemoveDeadAlly(player_id),
                    ) by {
                    if m < k {
                        let i = choose|i: int|
                            before_allies.outbox@.len() <= i < pre.len() && (
                            #[trigger] pre[i]) == Dispatch::PlayerMaintenance(
                                allies_snapshot@[m],
                                PlayerMaintenance::RemoveDeadAlly(player_id),
                            );
                        assert(self.outbox@[i] == Dispatch::PlayerMaintenance(
                            allies_snapshot@[m],
                            PlayerMaintenance::RemoveDeadAlly(player_id),
                        ));
                    } else {
                        assert(pushed);
                        assert(self.outbox@[pre.len() as int] == Dispatch::PlayerMaintenance(
                            allies_snapshot@[m],
                            PlayerMaintenance::RemoveDeadAlly(player_id),
                        ));
                    }
                }
            }
            k = k + 1;
        }
        let ghost pre_died = self.outbox@;
        self.outbox.push(Dispatch::PlayerMaintenance(player_id, PlayerMaintenance::Died));
        proof {
            assert(allies_snapshot@ == old(self).spec_player(player_id)->0.allies@);
            assert(base == old(self).outbox@.len()) by {
                assert(after_reset.outbox@ == old(self).outbox@);
            }
            assert forall|j: int|
                0 <= j < old(self).world.towers@.len() implies exists|i: int|
                old(self).outbox@.len() <= i < final(self).outbox@.len() && (
                #[trigger] final(self).outbox@[i]) == Dispatch::ChunkMaintenance(
                    (#[trigger] old(self).world.towers@[j]).0.spec_chunk(),
                    ChunkMaintenance::KillPlayer { player_id },
                ) by {
                assert(after_reset.world.towers@ == old(self).world.towers@);
                assert(Self::spec_chunks_has(
                    chunks@,
                    old(self).world.towers@[j].0.spec_chunk(),
                ));
                let a = choose|a: int|
                    0 <= a < chunks@.len() && chunks@[a] == old(self).world.towers@[
                        j
                    ].0.spec_chunk();
                assert(before_allies.outbox@[base + a] == Dispatch::ChunkMaintenance(
                    chunks@[a],
                    ChunkMaintenance::KillPlayer { player_id },
                ));
                assert(final(self).outbox@[base + a] == before_allies.outbox@[base + a]);
            }
            assert forall|m: int|
                0 <= m < old(self).spec_player(player_id)->0.allies@.len() && old(
                    self,
                ).spec_has_player(
                    #[trigger] old(self).spec_player(player_id)->0.allies@[m],
                ) && old(self).spec_player(player_id)->0.allies@[m] != player_id
                implies exists|i: int|
                old(self).outbox@.len() <= i < final(self).outbox@.len() && (
                #[trigger] final(self).outbox@[i]) == Dispatch::PlayerMaintenance(
                    old(self).spec_player(player_id)->0.allies@[m],
                    PlayerMaintenance::RemoveDeadAlly(player_id),
                ) by {
                let ally = allies_snapshot@[m];
                assert(before_allies.spec_has_player(ally)) by {
                    assert(ally != player_id);
                    assert(after_reset.spec_has_player(ally));
                }
                let i = choose|i: int|
                    before_allies.outbox@.len() <= i < pre_died.len() && (#[trigger] pre_died[i])
                        == Dispatch::PlayerMaintenance(
                        ally,
                        PlayerMaintenance::RemoveDeadAlly(player_id),
                    );
                assert(final(self).outbox@[i] == pre_died[i]);
                assert(old(self).outbox@.len() <= i < final(self).outbox@.len());
            }
            assert forall|i: int|
                base <= i < kp_end implies final(self).outbox@[i] == Dispatch::ChunkMaintenance(
                chunks@[i - base],
                ChunkMaintenance::KillPlayer { player_id },
            ) by {
                let a = i - base;
                assert(before_allies.outbox@[base + a] == Dispatch::ChunkMaintenance(
                    chunks@[a],
                    ChunkMaintenance::KillPlayer { player_id },
                ));
                assert(final(self).outbox@[i] == before_allies.outbox@[i]);
            }
            assert forall|i: int|
                old(self).outbox@.len() <= i < final(self).outbox@.len() implies ({
                    ||| ((#[trigger] final(self).outbox@[i]) matches Dispatch::ChunkMaintenance(
                        _c,
                        ChunkMaintenance::KillPlayer { player_id: kp },
                    ) && kp == player_id)
                    ||| (final(self).outbox@[i] matches Dispatch::PlayerMaintenance(
                        _a,
                        PlayerMaintenance::RemoveDeadAlly(dp),
                    ) && dp == player_id)
                    ||| final(self).outbox@[i] == Dispatch::PlayerMaintenance(
                        player_id,
                        PlayerMaintenance::Died,
                    )
                }) by {
                if i < kp_end {
                    assert(final(self).outbox@[i] == Dispatch::ChunkMaintenance(
                        chunks@[i - base],
                        ChunkMaintenance::KillPlayer { player_id },
                    ));
                } else if i < final(self).outbox@.len() - 1 {
                    assert((final(self).outbox@[i] matches Dispatch::PlayerMaintenance(
                        _a,
                        PlayerMaintenance::RemoveDeadAlly(dp),
                    ) && dp == player_id));
                } else {
                    assert(final(self).outbox@[i] == Dispatch::PlayerMaintenance(
                        player_id,
                        PlayerMaintenance::Died,
                    ));
                }
            }
            assert forall|i1: int, i2: int|
                old(self).outbox@.len() <= i1 < i2 < final(self).outbox@.len() && (
                #[trigger] final(self).outbox@[i1]) is ChunkMaintenance && final(self).outbox@[i1]->ChunkMaintenance_1 is KillPlayer && (
            #[trigger] final(self).outbox@[i2]) is ChunkMaintenance && final(self).outbox@[i2]->ChunkMaintenance_1 is KillPlayer
                implies final(self).outbox@[i1]->ChunkMaintenance_0 != final(self).outbox@[i2]->ChunkMaintenance_0 by {
                assert(i1 < kp_end && i2 < kp_end);
                assert(final(self).outbox@[i1] == Dispatch::ChunkMaintenance(
                    chunks@[i1 - base],
                    ChunkMaintenance::KillPlayer { player_id },
                ));
                assert(final(self).outbox@[i2] == Dispatch::ChunkMaintenance(
                    chunks@[i2 - base],
                    ChunkMaintenance::KillPlayer { player_id },
                ));
                assert(chunks@[i1 - base] != chunks@[i2 - base]);
            }
        }
    }
}

} // verus!

verus! {

/// The locked set is closed under the walk toward the center: every
/// locked cell off the center has its next step locked too.
pub open spec fn spec_walk_closed(locked: crate::towerset::TowerSet) -> bool {
    forall|o: TowerId|
        (#[trigger] locked.spec_contains(o)) && !(o.x == crate::id::CENTER_X && o.y
            == crate::id::CENTER_Y) ==> locked.spec_contains(o.spec_connectivity_id())
}

/// A walk-closed locked set that holds a cell holds the cell's whole
/// center walk.
proof fn lemma_walk_locked(locked: crate::towerset::TowerSet, root: TowerId, id: TowerId)
    requires
        spec_walk_closed(locked),
        locked.spec_contains(root),
        TowerId::spec_center_walk_contains(root, id),
    ensures
        locked.spec_contains(id),
    decreases root.spec_center_dist(),
{
    if root != id {
        assert(locked.spec_contains(root.spec_connectivity_id()));
        lemma_walk_locked(locked, root.spec_connectivity_id(), id);
    }
}

/// Walks from `start` toward the world center, locking every cell until
/// one is already locked or the center is reached. Every newly locked
/// cell lies on the center walk from `start`, and walk-closure of the
/// set is preserved.
fn lock_walk(locked: &mut crate::towerset::TowerSet, start: TowerId)
    requires
        old(locked).wf(),
        start.in_world(),
        spec_walk_closed(*old(locked)),
    ensures
        final(locked).wf(),
        final(locked).spec_contains(start),
        spec_walk_closed(*final(locked)),
        forall|o: TowerId| old(locked).spec_contains(o) ==> final(locked).spec_contains(o),
        forall|o: TowerId|
            final(locked).spec_contains(o) ==> old(locked).spec_contains(o)
                || TowerId::spec_center_walk_contains(start, o),
{
    let mut t = start;
    let mut go = locked.insert(t);
    proof {
        assert(TowerId::spec_center_walk_contains(start, start));
    }
    while go
        invariant
            locked.wf(),
            t.in_world(),
            locked.spec_contains(start),
            locked.spec_contains(t),
            TowerId::spec_center_walk_contains(start, t),
            forall|o: TowerId|
                (#[trigger] locked.spec_contains(o)) && !(o.x == crate::id::CENTER_X && o.y
                    == crate::id::CENTER_Y) && !(go && o == t) ==> locked.spec_contains(
                    o.spec_connectivity_id(),
                ),
            forall|o: TowerId| old(locked).spec_contains(o) ==> locked.spec_contains(o),
            forall|o: TowerId|
                locked.spec_contains(o) ==> old(locked).spec_contains(o)
                    || TowerId::spec_center_walk_contains(start, o),
        decreases t.spec_center_dist(), (if go { 1int } else { 0int }),
    {
        match t.connectivity_id() {
            Some(n) => {
                proof {
                    TowerId::lemma_center_walk_extend(start, t);
                }
                t = n;
                go = locked.insert(t);
            }
            None => {
                go = false;
            }
        }
    }
}

impl TowerService {
    /// The non-destroyable tower at `src` holds or expects `pid`'s ruler,
    /// and `root` is a materialized cell of that ruler's spawn bubble.
    pub open spec fn spec_ruler_bubble_covers(
        w: World,
        src: TowerId,
        pid: PlayerId,
        root: TowerId,
    ) -> bool {
        &&& w.spec_get_tower(src) matches Some(t) && !t.spec_can_destroy()
            && t.spec_ruler_source(pid)
        &&& w.spec_has_tower(root)
        &&& crate::flood::spec_bubble_reachable(
            src,
            (crate::flood::spec_spawn_radius(pid) as int) * (crate::flood::spec_spawn_radius(
                pid,
            ) as int),
            root,
        )
    }

    /// A protection root of the shrink pass: a materialized tower that
    /// cannot be destroyed, or a materialized cell of such a tower's
    /// ruler bubble.
    pub open spec fn spec_shrink_root(w: World, root: TowerId) -> bool {
        ||| (w.spec_get_tower(root) matches Some(t) && !t.spec_can_destroy())
        ||| exists|src: TowerId, pid: PlayerId|
            #[trigger] Self::spec_ruler_bubble_covers(w, src, pid, root)
    }

    /// The cell is protected from shrinking: it lies on the center walk
    /// of some protection root.
    pub open spec fn spec_shrink_protected(w: World, id: TowerId) -> bool {
        exists|root: TowerId|
            Self::spec_shrink_root(w, root) && #[trigger] TowerId::spec_center_walk_contains(
                root,
                id,
            )
    }

    /// Removes every tower that nothing protects: a tower survives if it
    /// cannot be destroyed, lies on a protected tower's walk toward the
    /// center, or sits in a ruler's spawn bubble. Every removed tower was
    /// eligible for destruction; every ineligible tower is kept
    /// unchanged.
    pub fn shrink(&mut self)
        requires
            old(self).wf(),
        ensures
            final(self).wf(),
            forall|id: TowerId|
                ((#[trigger] old(self).world.spec_get_tower(id)) is Some
                    && !(old(self).world.spec_get_tower(id)->0.spec_can_destroy()))
                    ==> final(self).world.spec_get_tower(id) == old(self).world.spec_get_tower(id),
            forall|id: TowerId|
                old(self).world.spec_has_tower(id) && !final(self).world.spec_has_tower(id)
                    ==> (#[trigger] old(self).world.spec_get_tower(id))->0.spec_can_destroy(),
            forall|id: TowerId|
                !old(self).world.spec_has_tower(id) ==> !final(self).world.spec_has_tower(id),
            forall|id: TowerId|
                (#[trigger] final(self).world.spec_has_tower(id)) ==> Self::spec_shrink_protected(
                    old(self).world,
                    id,
                ),
            forall|id: TowerId|
                (#[trigger] Self::spec_shrink_protected(old(self).world, id)) && old(
                    self,
                ).world.spec_has_tower(id) ==> final(self).world.spec_get_tower(id) == old(
                    self,
                ).world.spec_get_tower(id),
            final(self).players == old(self).players,
            final(self).active == old(self).active,
            final(self).outbox@.len() >= old(self).outbox@.len(),
            forall|i: int|
                0 <= i < old(self).outbox@.len() ==> final(self).outbox@[i] == old(
                    self,
                ).outbox@[i],
            forall|i: int|
                old(self).outbox@.len() <= i < final(self).outbox@.len() ==> (
                #[trigger] final(self).outbox@[i]) matches Dispatch::ChunkMaintenance(
                    _c,
                    ChunkMaintenance::Destroy { .. },
                ),
            forall|id: TowerId|
                old(self).world.spec_has_tower(id) && !final(self).world.spec_has_tower(id)
                    ==> spec_destroy_listed(
                    final(self).outbox@,
                    old(self).outbox@.len() as int,
                    (#[trigger] id.spec_chunk()),
                ),
    {
        let mut locked = crate::towerset::TowerSet::with_world_bounds();
        let mut k: usize = 0;
        while k < self.world.towers.len()
            invariant
                self.wf(),
                k <= self.world.towers@.len(),
                locked.wf(),
                spec_walk_closed(locked),
                forall|j: int|
                    0 <= j < k ==> (!(#[trigger] self.world.towers@[j]).1.spec_can_destroy()
                        ==> locked.spec_contains(self.world.towers@[j].0)),
                forall|j: int, pid: PlayerId, cell: TowerId|
                    0 <= j < k && #[trigger] Self::spec_ruler_bubble_covers(
                        self.world,
                        (#[trigger] self.world.towers@[j]).0,
                        pid,
                        cell,
                    ) ==> locked.spec_contains(cell),
                forall|o: TowerId|
                    (#[trigger] locked.spec_contains(o)) ==> Self::spec_shrink_protected(
                        self.world,
                        o,
                    ),
            decreases self.world.towers@.len() - k,
        {
            let ghost locked0 = locked;
            let id = self.world.towers[k].0;
            proof {
                assert(self.world.towers@[k as int].0.in_world()
                    && self.world.towers@[k as int].1.wf());
            }
            proof {
                assert(self.world.spec_has_tower(id)) by {
                    assert(self.world.towers@[k as int].0 == id);
                }
                let i0 = choose|i0: int|
                    0 <= i0 < self.world.towers@.len() && (#[trigger] self.world.towers@[i0]).0
                        == id;
                assert(i0 == k);
                assert(self.world.spec_get_tower(id) == Some(self.world.towers@[k as int].1));
            }
            if !self.world.towers[k].1.can_destroy() {
                proof {
                    assert(self.world.spec_has_tower(id)) by {
                        assert(self.world.towers@[k as int].0 == id);
                    }
                    let i = choose|i: int|
                        0 <= i < self.world.towers@.len() && (#[trigger] self.world.towers@[i]).0
                            == id;
                    assert(i == k);
                    assert(self.world.spec_get_tower(id) == Some(self.world.towers@[k as int].1));
                    assert(Self::spec_shrink_root(self.world, id));
                }
                let ghost before_walk = locked;
                lock_walk(&mut locked, id);
                proof {
                    assert forall|o: TowerId|
                        (#[trigger] locked.spec_contains(o)) implies Self::spec_shrink_protected(
                        self.world,
                        o,
                    ) by {
                        if !before_walk.spec_contains(o) {
                            assert(TowerId::spec_center_walk_contains(id, o));
                        }
                    }
                }
                let rulers = self.world.towers[k].1.iter_rulers();
                proof {
                    let tw = self.world.towers@[k as int].1;
                    assert forall|pid: PlayerId| #[trigger] tw.spec_ruler_source(pid)
                        implies rulers@.contains(pid) by {
                        if tw.units.spec_has_ruler() && tw.player_id == Some(pid) {
                            assert(rulers@.contains(tw.player_id->0));
                        } else {
                            let i = choose|i: int|
                                0 <= i < tw.inbound_forces@.len() && (
                                #[trigger] tw.inbound_forces@[i]).units.spec_has_ruler()
                                    && tw.inbound_forces@[i].player_id == Some(pid);
                            assert(rulers@.contains(tw.inbound_forces@[i].player_id->0));
                        }
                    }
                }
                let mut ri: usize = 0;
                while ri < rulers.len()
                    invariant
                        self.wf(),
                        k < self.world.towers@.len(),
                        self.world.towers@[k as int].0.in_world(),
                        id.in_world(),
                        id == self.world.towers@[k as int].0,
                        self.world.spec_get_tower(id) == Some(self.world.towers@[k as int].1),
                        !self.world.towers@[k as int].1.spec_can_destroy(),
                        forall|m: int|
                            0 <= m < rulers@.len() ==> self.world.towers@[
                                k as int
                            ].1.spec_ruler_source(#[trigger] rulers@[m]),
                        ri <= rulers@.len(),
                        locked.wf(),
                        spec_walk_closed(locked),
                        locked.spec_contains(self.world.towers@[k as int].0),
                        forall|o: TowerId|
                            locked0.spec_contains(o) ==> locked.spec_contains(o),
                        forall|j: int, pid2: PlayerId, cell: TowerId|
                            0 <= j < k && #[trigger] Self::spec_ruler_bubble_covers(
                                self.world,
                                (#[trigger] self.world.towers@[j]).0,
                                pid2,
                                cell,
                            ) ==> locked.spec_contains(cell),
                        forall|m: int, cell: TowerId|
                            0 <= m < ri && #[trigger] Self::spec_ruler_bubble_covers(
                                self.world,
                                id,
                                #[trigger] rulers@[m],
                                cell,
                            ) ==> locked.spec_contains(cell),
                        forall|o: TowerId|
                            (#[trigger] locked.spec_contains(o)) ==> Self::spec_shrink_protected(
                                self.world,
                                o,
                            ),
                    decreases rulers@.len() - ri,
                {
                    let pid = rulers[ri];
                    let cells = crate::flood::spawn_bubble(id, pid);
                    let mut ci: usize = 0;
                    while ci < cells.len()
                        invariant
                            self.wf(),
                            k < self.world.towers@.len(),
                            self.world.towers@[k as int].0.in_world(),
                            id.in_world(),
                            id == self.world.towers@[k as int].0,
                            self.world.spec_get_tower(id) == Some(
                                self.world.towers@[k as int].1,
                            ),
                            !self.world.towers@[k as int].1.spec_can_destroy(),
                            self.world.towers@[k as int].1.spec_ruler_source(pid),
                            ci <= cells@.len(),
                            forall|j: int|
                                0 <= j < cells@.len() ==> (#[trigger] cells@[j]).in_world()
                                    && crate::flood::spec_bubble_reachable(
                                    id,
                                    (crate::flood::spec_spawn_radius(pid) as int)
                                        * (crate::flood::spec_spawn_radius(pid) as int),
                                    cells@[j],
                                ),
                            locked.wf(),
                            spec_walk_closed(locked),
                            locked.spec_contains(self.world.towers@[k as int].0),
                            forall|o: TowerId|
                                locked0.spec_contains(o) ==> locked.spec_contains(o),
                            forall|j: int, pid2: PlayerId, cell: TowerId|
                                0 <= j < k && #[trigger] Self::spec_ruler_bubble_covers(
                                    self.world,
                                    (#[trigger] self.world.towers@[j]).0,
                                    pid2,
                                    cell,
                                ) ==> locked.spec_contains(cell),
                            forall|m: int, cell: TowerId|
                                0 <= m < ri && #[trigger] Self::spec_ruler_bubble_covers(
                                    self.world,
                                    id,
                                    #[trigger] rulers@[m],
                                    cell,
                                ) ==> locked.spec_contains(cell),
                            forall|c2: int|
                                0 <= c2 < ci && self.world.spec_has_tower(
                                    #[trigger] cells@[c2],
                                ) ==> locked.spec_contains(cells@[c2]),
                            forall|o: TowerId|
                                (#[trigger] locked.spec_contains(o))
                                    ==> Self::spec_shrink_protected(self.world, o),
                        decreases cells@.len() - ci,
                    {
                        let cell = cells[ci];
                        if self.world.contains(cell) {
                            proof {
                                assert(Self::spec_ruler_bubble_covers(
                                    self.world,
                                    id,
                                    pid,
                                    cell,
                                ));
                                assert(Self::spec_shrink_root(self.world, cell));
                            }
                            let ghost before_walk2 = locked;
                            lock_walk(&mut locked, cell);
                            proof {
                                assert forall|o: TowerId|
                                    (#[trigger] locked.spec_contains(o))
                                    implies Self::spec_shrink_protected(self.world, o) by {
                                    if !before_walk2.spec_contains(o) {
                                        assert(TowerId::spec_center_walk_contains(cell, o));
                                    }
                                }
                            }
                        }
                        ci = ci + 1;
                    }
                    proof {
                        assert forall|cell: TowerId|
                            #[trigger] Self::spec_ruler_bubble_covers(self.world, id, pid, cell)
                            implies locked.spec_contains(cell) by {
                            crate::flood::lemma_closed_contains_reachable(
                                id,
                                (crate::flood::spec_spawn_radius(pid) as int)
                                    * (crate::flood::spec_spawn_radius(pid) as int),
                                cells@,
                                cell,
                            );
                            let c2 = choose|c2: int|
                                0 <= c2 < cells@.len() && cells@[c2] == cell;
                        }
                    }
                    ri = ri + 1;
                }
                proof {
                    let tw = self.world.towers@[k as int].1;
                    assert forall|pid2: PlayerId, cell: TowerId|
                        #[trigger] Self::spec_ruler_bubble_covers(
                            self.world,
                            id,
                            pid2,
                            cell,
                        ) implies locked.spec_contains(cell) by {
                        assert(tw.spec_ruler_source(pid2));
                        assert(rulers@.contains(pid2));
                        let m = choose|m: int| 0 <= m < rulers@.len() && rulers@[m] == pid2;
                    }
                }
            }
            k = k + 1;
        }
        let mut doomed: Vec<TowerId> = Vec::new();
        let mut k: usize = 0;
        while k < self.world.towers.len()
            invariant
                self.wf(),
                k <= self.world.towers@.len(),
                locked.wf(),
                forall|j: int|
                    0 <= j < self.world.towers@.len() ==> (!(
                    #[trigger] self.world.towers@[j]).1.spec_can_destroy()
                        ==> locked.spec_contains(self.world.towers@[j].0)),
                forall|i: int| 0 <= i < doomed@.len() ==> (#[trigger] doomed@[i]).in_world(),
                forall|i: int|
                    0 <= i < doomed@.len() ==> !locked.spec_contains(#[trigger] doomed@[i]),
                forall|i: int|
                    0 <= i < doomed@.len() ==> ((#[trigger] self.world.spec_get_tower(doomed@[i]))
                        matches Some(t) && t.spec_can_destroy()),
                forall|o: TowerId|
                    (#[trigger] locked.spec_contains(o)) ==> Self::spec_shrink_protected(
                        self.world,
                        o,
                    ),
                forall|j: int|
                    0 <= j < k ==> locked.spec_contains((#[trigger] self.world.towers@[j]).0)
                        || doomed@.contains(self.world.towers@[j].0),
            decreases self.world.towers@.len() - k,
        {
            let id = self.world.towers[k].0;
            proof {
                assert(self.world.towers@[k as int].0.in_world());
            }
            if !locked.contains(id) {
                proof {
                    assert(self.world.spec_has_tower(id)) by {
                        assert(self.world.towers@[k as int].0 == id);
                    }
                    let i = choose|i: int|
                        0 <= i < self.world.towers@.len() && (#[trigger] self.world.towers@[i]).0
                            == id;
                    assert(self.world.towers@[i].1.spec_can_destroy());
                }
                doomed.push(id);
            }
            k = k + 1;
        }
        let ghost pre = *self;
        self.destroy(doomed);
        proof {
            assert forall|id: TowerId|
                ((#[trigger] old(self).world.spec_get_tower(id)) is Some
                    && !(old(self).world.spec_get_tower(id)->0.spec_can_destroy()))
                implies final(self).world.spec_get_tower(id)
                == old(self).world.spec_get_tower(id) by {
                if doomed@.contains(id) {
                    let i = choose|i: int| 0 <= i < doomed@.len() && doomed@[i] == id;
                }
            }
            assert forall|id: TowerId|
                old(self).world.spec_has_tower(id) && !final(self).world.spec_has_tower(id)
                implies (#[trigger] old(self).world.spec_get_tower(id))->0.spec_can_destroy() by {
                if !doomed@.contains(id) {
                    assert(final(self).world.spec_get_tower(id) == old(
                        self,
                    ).world.spec_get_tower(id));
                } else {
                    let i = choose|i: int| 0 <= i < doomed@.len() && doomed@[i] == id;
                }
            }
            assert(pre.world == old(self).world);
            assert forall|id: TowerId|
                old(self).world.spec_has_tower(id) && !final(self).world.spec_has_tower(id)
                implies spec_destroy_listed(
                final(self).outbox@,
                old(self).outbox@.len() as int,
                (#[trigger] id.spec_chunk()),
            ) by {
                assert(doomed@.contains(id)) by {
                    if !doomed@.contains(id) {
                        assert(final(self).world.spec_get_tower(id)
                            == pre.world.spec_get_tower(id));
                        assert(pre.world.spec_get_tower(id) is Some);
                    }
                }
                let q = choose|q: int| 0 <= q < doomed@.len() && doomed@[q] == id;
                assert(spec_destroy_listed(
                    final(self).outbox@,
                    pre.outbox@.len() as int,
                    doomed@[q].spec_chunk(),
                ));
                assert(pre.outbox@.len() == old(self).outbox@.len());
            }
            assert forall|id: TowerId|
                (#[trigger] Self::spec_shrink_protected(old(self).world, id)) && old(
                    self,
                ).world.spec_has_tower(id) implies final(self).world.spec_get_tower(id) == old(
                self,
            ).world.spec_get_tower(id) by {
                let root = choose|root: TowerId|
                    Self::spec_shrink_root(old(self).world, root)
                        && #[trigger] TowerId::spec_center_walk_contains(root, id);
                assert(locked.spec_contains(root)) by {
                    if old(self).world.spec_get_tower(root) is Some && !(old(
                        self,
                    ).world.spec_get_tower(root)->0.spec_can_destroy()) {
                        let j = choose|j: int|
                            0 <= j < pre.world.towers@.len() && (
                            #[trigger] pre.world.towers@[j]).0 == root;
                        assert(pre.world.spec_get_tower(root) == Some(pre.world.towers@[j].1));
                        assert(!pre.world.towers@[j].1.spec_can_destroy());
                    } else {
                        let (src, pid) = choose|src: TowerId, pid: PlayerId|
                            #[trigger] Self::spec_ruler_bubble_covers(
                                old(self).world,
                                src,
                                pid,
                                root,
                            );
                        assert(pre.world.spec_has_tower(src)) by {
                            if !pre.world.spec_has_tower(src) {
                                assert(pre.world.spec_get_tower(src) is None);
                            }
                        }
                        let j = choose|j: int|
                            0 <= j < pre.world.towers@.len() && (
                            #[trigger] pre.world.towers@[j]).0 == src;
                        assert(Self::spec_ruler_bubble_covers(
                            pre.world,
                            pre.world.towers@[j].0,
                            pid,
                            root,
                        ));
                    }
                }
                lemma_walk_locked(locked, root, id);
                assert(!doomed@.contains(id)) by {
                    if doomed@.contains(id) {
                        let di = choose|di: int| 0 <= di < doomed@.len() && doomed@[di] == id;
                        assert(!locked.spec_contains(doomed@[di]));
                    }
                }
                assert(final(self).world.spec_get_tower(id) == pre.world.spec_get_tower(id));
            }
            assert forall|id: TowerId|
                (#[trigger] final(self).world.spec_has_tower(id))
                implies Self::spec_shrink_protected(old(self).world, id) by {
                assert(!doomed@.contains(id)) by {
                    if doomed@.contains(id) {
                        let i = choose|i: int| 0 <= i < doomed@.len() && doomed@[i] == id;
                        assert(!final(self).world.spec_has_tower(doomed@[i]));
                    }
                }
                assert(final(self).world.spec_get_tower(id) == old(self).world.spec_get_tower(
                    id,
                ));
                assert(old(self).world.spec_has_tower(id)) by {
                    if !old(self).world.spec_has_tower(id) {
                        assert(old(self).world.spec_get_tower(id) is None);
                    }
                }
                let i = choose|i: int|
                    0 <= i < old(self).world.towers@.len() && (
                    #[trigger] old(self).world.towers@[i]).0 == id;
                assert(locked.spec_contains(old(self).world.towers@[i].0) || doomed@.contains(
                    old(self).world.towers@[i].0,
                ));
                assert(locked.spec_contains(id));
            }
            assert forall|id: TowerId|
                !old(self).world.spec_has_tower(id)
                implies !final(self).world.spec_has_tower(id) by {
                if !doomed@.contains(id) {
                    assert(final(self).world.spec_get_tower(id) == old(
                        self,
                    ).world.spec_get_tower(id));
                    if final(self).world.spec_has_tower(id) {
                        assert(final(self).world.spec_get_tower(id) is Some);
                    }
                }
            }
        }
    }
}

} // verus!

verus! {

impl TowerService {
    /// The cell is materialized and owned: it blocks a spawn outright.
    pub open spec fn spec_cell_blocked(w: World, id: TowerId) -> bool {
        w.spec_get_tower(id) matches Some(t) && t.player_id is Some
    }

    /// The type a spawn check sees at the cell: the materialized tower's
    /// type, or the cell's deterministic type before materialization.
    pub open spec fn spec_cell_type(w: World, id: TowerId) -> TowerType {
        match w.spec_get_tower(id) {
            Some(t) => t.tower_type,
            None => id.spec_tower_type(),
        }
    }

    /// The cell is materialized and either owned or targeted by an
    /// inbound force.
    pub open spec fn spec_cell_occupied(w: World, id: TowerId) -> bool {
        w.spec_get_tower(id) matches Some(t) && (t.player_id is Some
            || t.inbound_forces@.len() > 0)
    }

    /// The type a spawn check sees at the cell.
    fn cell_type(&self, id: TowerId) -> (r: TowerType)
        requires
            self.wf(),
        ensures
            r == Self::spec_cell_type(self.world, id),
    {
        match self.world.get(id) {
            Some(t) => t.tower_type,
            None => id.tower_type(),
        }
    }

    /// The cell is materialized and owned.
    fn cell_blocked(&self, id: TowerId) -> (r: bool)
        requires
            self.wf(),
        ensures
            r == Self::spec_cell_blocked(self.world, id),
    {
        match self.world.get(id) {
            Some(t) => t.player_id.is_some(),
            None => false,
        }
    }

    /// The cell and its surroundings make a good spawn: neither the cell
    /// nor any neighbor is owned, and either the cell's own type is
    /// spawnable with at least three neighbors, or at least two neighbors
    /// have spawnable types.
    pub open spec fn spec_good_spawn(w: World, id: TowerId) -> bool {
        &&& !Self::spec_cell_blocked(w, id)
        &&& forall|n: TowerId| #[trigger] id.spec_is_neighbor(n) ==> !Self::spec_cell_blocked(w, n)
        &&& ({
            ||| (Self::spec_cell_type(w, id).spec_is_spawnable() && exists|
                n1: TowerId,
                n2: TowerId,
                n3: TowerId,
            |
                #[trigger] id.spec_is_neighbor(n1) && #[trigger] id.spec_is_neighbor(n2)
                    && #[trigger] id.spec_is_neighbor(n3) && n1 != n2 && n1 != n3 && n2 != n3)
            ||| exists|n1: TowerId, n2: TowerId|
                #[trigger] id.spec_is_neighbor(n1) && #[trigger] id.spec_is_neighbor(n2) && n1
                    != n2 && Self::spec_cell_type(w, n1).spec_is_spawnable() && Self::spec_cell_type(w, 
                    n2,
                ).spec_is_spawnable()
        })
    }

    /// The cell and its surroundings make a good spawn.
    pub fn is_good_spawn(&self, tower_id: TowerId) -> (r: bool)
        requires
            self.wf(),
            tower_id.in_world(),
        ensures
            r == Self::spec_good_spawn(self.world, tower_id),
    {
        if self.cell_blocked(tower_id) {
            return false;
        }
        let nbrs = tower_id.neighbors();
        let mut spawnable: usize = 0;
        let ghost mut found: Seq<TowerId> = Seq::empty();
        let mut k: usize = 0;
        while k < nbrs.len()
            invariant
                self.wf(),
                tower_id.in_world(),
                k <= nbrs@.len(),
                forall|i: int|
                    0 <= i < nbrs@.len() ==> tower_id.spec_is_neighbor(#[trigger] nbrs@[i]),
                forall|n: TowerId| tower_id.spec_is_neighbor(n) ==> nbrs@.contains(n),
                forall|i: int, j: int| 0 <= i < j < nbrs@.len() ==> nbrs@[i] != nbrs@[j],
                forall|j: int| 0 <= j < k ==> !Self::spec_cell_blocked(self.world, #[trigger] nbrs@[j]),
                found.len() == spawnable,
                spawnable <= k,
                forall|i: int, j: int| 0 <= i < j < found.len() ==> found[i] != found[j],
                forall|i: int|
                    0 <= i < found.len() ==> tower_id.spec_is_neighbor(#[trigger] found[i])
                        && Self::spec_cell_type(self.world, found[i]).spec_is_spawnable(),
                forall|j: int|
                    0 <= j < k ==> (Self::spec_cell_type(self.world, 
                        #[trigger] nbrs@[j],
                    ).spec_is_spawnable() ==> found.contains(nbrs@[j])),
                forall|i: int|
                    0 <= i < found.len() ==> exists|j: int|
                        0 <= j < k && nbrs@[j] == #[trigger] found[i],
            decreases nbrs@.len() - k,
        {
            let n = nbrs[k];
            if self.cell_blocked(n) {
                return false;
            }
            if self.cell_type(n).is_spawnable() {
                proof {
                    assert forall|i: int| 0 <= i < found.len() implies found[i] != n by {
                        let j1 = choose|j1: int| 0 <= j1 < k && nbrs@[j1] == found[i];
                        assert(nbrs@[j1] != nbrs@[k as int]);
                    }
                    found = found.push(n);
                    assert(found[found.len() - 1] == nbrs@[k as int]);
                }
                spawnable = spawnable + 1;
            }
            k = k + 1;
        }
        let center_ok = self.cell_type(tower_id).is_spawnable() && nbrs.len() >= 3;
        let r = center_ok || spawnable >= 2;
        proof {
            assert forall|n: TowerId| tower_id.spec_is_neighbor(n) implies !Self::spec_cell_blocked(self.world, 
                n,
            ) by {
                let j = choose|j: int| 0 <= j < nbrs@.len() && nbrs@[j] == n;
            }
            if r {
                if center_ok {
                    assert(tower_id.spec_is_neighbor(nbrs@[0]) && tower_id.spec_is_neighbor(
                        nbrs@[1],
                    ) && tower_id.spec_is_neighbor(nbrs@[2]));
                } else {
                    assert(tower_id.spec_is_neighbor(found[0]) && tower_id.spec_is_neighbor(
                        found[1],
                    ) && found[0] != found[1]);
                }
                assert(Self::spec_good_spawn(self.world, tower_id));
            } else {
                assert(!Self::spec_good_spawn(self.world, tower_id)) by {
                    if Self::spec_good_spawn(self.world, tower_id) {
                        if Self::spec_cell_type(self.world, tower_id).spec_is_spawnable() && exists|
                            n1: TowerId,
                            n2: TowerId,
                            n3: TowerId,
                        |
                            #[trigger] tower_id.spec_is_neighbor(n1)
                                && #[trigger] tower_id.spec_is_neighbor(n2)
                                && #[trigger] tower_id.spec_is_neighbor(n3) && n1 != n2 && n1 != n3
                                && n2 != n3 {
                            let (n1, n2, n3) = choose|n1: TowerId, n2: TowerId, n3: TowerId|
                                #[trigger] tower_id.spec_is_neighbor(n1)
                                    && #[trigger] tower_id.spec_is_neighbor(n2)
                                    && #[trigger] tower_id.spec_is_neighbor(n3) && n1 != n2 && n1
                                    != n3 && n2 != n3;
                            let j1 = choose|j: int| 0 <= j < nbrs@.len() && nbrs@[j] == n1;
                            let j2 = choose|j: int| 0 <= j < nbrs@.len() && nbrs@[j] == n2;
                            let j3 = choose|j: int| 0 <= j < nbrs@.len() && nbrs@[j] == n3;
                            assert(j1 != j2 && j1 != j3 && j2 != j3);
                            assert(nbrs@.len() >= 3);
                        } else {
                            let (n1, n2) = choose|n1: TowerId, n2: TowerId|
                                #[trigger] tower_id.spec_is_neighbor(n1)
                                    && #[trigger] tower_id.spec_is_neighbor(n2) && n1 != n2
                                    && Self::spec_cell_type(self.world, n1).spec_is_spawnable()
                                    && Self::spec_cell_type(self.world, n2).spec_is_spawnable();
                            let j1 = choose|j: int| 0 <= j < nbrs@.len() && nbrs@[j] == n1;
                            let j2 = choose|j: int| 0 <= j < nbrs@.len() && nbrs@[j] == n2;
                            assert(found.contains(nbrs@[j1]) && found.contains(nbrs@[j2]));
                            let f1 = choose|f: int| 0 <= f < found.len() && found[f] == n1;
                            let f2 = choose|f: int| 0 <= f < found.len() && found[f] == n2;
                            assert(f1 != f2);
                            assert(found.len() >= 2);
                        }
                    }
                }
            }
        }
        r
    }

    /// One state of the safety scan: the folded visited bitmap, the layer
    /// being read, the frontier being written, and how many cells the
    /// frontier received.
    pub open spec fn spec_scan_index(n: TowerId) -> int {
        (n.x as int) % 8 + ((n.y as int) % 8) * 8
    }

    /// One neighbor step of the safety scan: fold the cell into the
    /// bitmap; a newly folded cell aborts the scan if occupied, else joins
    /// the 16-entry ring frontier.
    pub open spec fn spec_scan_neighbor(
        w: World,
        st: (u64, Seq<TowerId>, Seq<TowerId>, int),
        n: TowerId,
    ) -> Option<(u64, Seq<TowerId>, Seq<TowerId>, int)> {
        let bit = 1u64 << (Self::spec_scan_index(n) as u64);
        if st.0 & bit == 0 {
            if Self::spec_cell_occupied(w, n) {
                None
            } else {
                Some(((st.0 | bit), st.1, st.2.update(st.3 % 16, n), st.3 + 1))
            }
        } else {
            Some(((st.0 | bit), st.1, st.2, st.3))
        }
    }

    /// The scan state after the first `j` neighbors of one frontier cell.
    pub open spec fn spec_scan_nbrs(
        w: World,
        st: Option<(u64, Seq<TowerId>, Seq<TowerId>, int)>,
        ns: Seq<TowerId>,
        j: int,
    ) -> Option<(u64, Seq<TowerId>, Seq<TowerId>, int)>
        decreases j,
    {
        if j <= 0 {
            st
        } else {
            match Self::spec_scan_nbrs(w, st, ns, j - 1) {
                None => None,
                Some(s) => Self::spec_scan_neighbor(w, s, ns[j - 1]),
            }
        }
    }

    /// The scan state after the first `i` cells of the layer being read.
    pub open spec fn spec_scan_cells(
        w: World,
        st: Option<(u64, Seq<TowerId>, Seq<TowerId>, int)>,
        cells: Seq<TowerId>,
        i: int,
    ) -> Option<(u64, Seq<TowerId>, Seq<TowerId>, int)>
        decreases i,
    {
        if i <= 0 {
            st
        } else {
            Self::spec_scan_nbrs(w, 
                Self::spec_scan_cells(w, st, cells, i - 1),
                cells[i - 1].spec_neighbors(),
                cells[i - 1].spec_neighbors().len() as int,
            )
        }
    }

    /// The scan state after the given number of layers: each layer reads
    /// at most sixteen frontier cells, resets the fill count, and swaps
    /// the two frontiers.
    pub open spec fn spec_scan_layers(
        w: World,
        st: Option<(u64, Seq<TowerId>, Seq<TowerId>, int)>,
        layer: int,
    ) -> Option<(u64, Seq<TowerId>, Seq<TowerId>, int)>
        decreases layer,
    {
        if layer <= 0 {
            st
        } else {
            match Self::spec_scan_layers(w, st, layer - 1) {
                None => None,
                Some(s) => {
                    let cnt = if s.3 < 16 {
                        s.3
                    } else {
                        16
                    };
                    match Self::spec_scan_cells(w, Some((s.0, s.1, s.2, 0)), s.1, cnt) {
                        None => None,
                        Some(t2) => Some((t2.0, t2.2, t2.1, t2.3)),
                    }
                }
            }
        }
    }

    /// Number of set bits among the lowest `k` of the bitmap.
    pub open spec fn spec_ones(set: u64, k: int) -> int
        decreases k,
    {
        if k <= 0 {
            0
        } else {
            Self::spec_ones(set, k - 1) + ((set >> ((k - 1) as u64)) & 1)
        }
    }

    /// The frontier the scan starts from: the candidate, padded to the
    /// ring size.
    pub open spec fn spec_init_frontier(id: TowerId) -> Seq<TowerId> {
        Seq::new(16, |i: int| if i == 0 { id } else { TowerId { x: 0, y: 0 } })
    }

    /// The padded empty frontier.
    pub open spec fn spec_zero_frontier() -> Seq<TowerId> {
        Seq::new(16, |i: int| TowerId { x: 0, y: 0 })
    }

    /// The safety scan accepts the candidate: the four-layer bounded scan
    /// meets no owned or force-targeted cell and folds at least twelve
    /// distinct bitmap cells.
    pub open spec fn spec_safe_spawn(w: World, id: TowerId) -> bool {
        match Self::spec_scan_layers(w, 
            Some((0u64, Self::spec_init_frontier(id), Self::spec_zero_frontier(), 1)),
            4,
        ) {
            None => false,
            Some(s) => Self::spec_ones(s.0, 64) >= 12,
        }
    }

    /// An aborted neighbor fold aborts the rest of the cell's neighbors.
    proof fn lemma_scan_nbrs_none_prop(
        w: World,
        st: Option<(u64, Seq<TowerId>, Seq<TowerId>, int)>,
        ns: Seq<TowerId>,
        j1: int,
        j2: int,
    )
        requires
            0 <= j1 <= j2,
            Self::spec_scan_nbrs(w, st, ns, j1) is None,
        ensures
            Self::spec_scan_nbrs(w, st, ns, j2) is None,
        decreases j2,
    {
        if j2 > j1 {
            Self::lemma_scan_nbrs_none_prop(w, st, ns, j1, j2 - 1);
        }
    }

    /// An aborted cell fold aborts the rest of the layer's cells.
    proof fn lemma_scan_cells_none_prop(
        w: World,
        st: Option<(u64, Seq<TowerId>, Seq<TowerId>, int)>,
        cells: Seq<TowerId>,
        i1: int,
        i2: int,
    )
        requires
            0 <= i1 <= i2,
            Self::spec_scan_cells(w, st, cells, i1) is None,
        ensures
            Self::spec_scan_cells(w, st, cells, i2) is None,
        decreases i2,
    {
        if i2 > i1 {
            Self::lemma_scan_cells_none_prop(w, st, cells, i1, i2 - 1);
            let prev = Self::spec_scan_cells(w, st, cells, i2 - 1);
            Self::lemma_scan_nbrs_none_prop(w, 
                prev,
                cells[i2 - 1].spec_neighbors(),
                0,
                cells[i2 - 1].spec_neighbors().len() as int,
            );
        }
    }

    /// An aborted layer aborts the remaining layers.
    proof fn lemma_scan_layers_none_prop(
        w: World,
        st: Option<(u64, Seq<TowerId>, Seq<TowerId>, int)>,
        l1: int,
        l2: int,
    )
        requires
            0 <= l1 <= l2,
            Self::spec_scan_layers(w, st, l1) is None,
        ensures
            Self::spec_scan_layers(w, st, l2) is None,
        decreases l2,
    {
        if l2 > l1 {
            Self::lemma_scan_layers_none_prop(w, st, l1, l2 - 1);
        }
    }

    /// The quirky bounded safety scan around a spawn candidate: a breadth
    /// scan four layers out over a folded 8-by-8 bitmap with two 16-entry
    /// ring buffers as frontier (on overflow later entries overwrite
    /// earlier ones). It fails on any owned or force-targeted cell it
    /// newly folds and demands at least twelve folded cells.
    pub fn is_safe_spawn(&self, tower_id: TowerId) -> (r: bool)
        requires
            self.wf(),
            tower_id.in_world(),
        ensures
            r == Self::spec_safe_spawn(self.world, tower_id),
    {
        let ghost init: Option<(u64, Seq<TowerId>, Seq<TowerId>, int)> = Some(
            (0u64, Self::spec_init_frontier(tower_id), Self::spec_zero_frontier(), 1int),
        );
        let mut set: u64 = 0;
        let mut a: Vec<TowerId> = Vec::new();
        let mut b: Vec<TowerId> = Vec::new();
        let mut i: usize = 0;
        while i < 16
            invariant
                i <= 16,
                a@.len() == i,
                b@.len() == i,
                forall|j: int| 0 <= j < i ==> a@[j] == (TowerId { x: 0, y: 0 }),
                forall|j: int| 0 <= j < i ==> b@[j] == (TowerId { x: 0, y: 0 }),
            decreases 16 - i,
        {
            a.push(TowerId { x: 0, y: 0 });
            b.push(TowerId { x: 0, y: 0 });
            i = i + 1;
        }
        a.set(0, tower_id);
        proof {
            assert(a@ =~= Self::spec_init_frontier(tower_id));
            assert(b@ =~= Self::spec_zero_frontier());
        }
        let mut len: usize = 1;
        let mut layer: usize = 0;
        while layer < 4
            invariant
                self.wf(),
                tower_id.in_world(),
                a@.len() == 16,
                b@.len() == 16,
                layer <= 4,
                len <= 200,
                forall|j: int| 0 <= j < 16 ==> (#[trigger] a@[j]).in_world(),
                forall|j: int| 0 <= j < 16 ==> (#[trigger] b@[j]).in_world(),
                init == Some(
                    (0u64, Self::spec_init_frontier(tower_id), Self::spec_zero_frontier(), 1int),
                ),
                Self::spec_scan_layers(self.world, init, layer as int) == Some(
                    (set, a@, b@, len as int),
                ),
            decreases 4 - layer,
        {
            let cnt = if len < 16 {
                len
            } else {
                16
            };
            let ghost layer_start: (u64, Seq<TowerId>, Seq<TowerId>, int) = (
                set,
                a@,
                b@,
                len as int,
            );
            let ghost reset: Option<(u64, Seq<TowerId>, Seq<TowerId>, int)> = Some(
                (set, a@, b@, 0int),
            );
            len = 0;
            let mut i: usize = 0;
            while i < cnt
                invariant
                    self.wf(),
                    a@.len() == 16,
                    b@.len() == 16,
                    cnt <= 16,
                    i <= cnt,
                    len <= 8 * i,
                    layer < 4,
                    forall|j: int| 0 <= j < 16 ==> (#[trigger] a@[j]).in_world(),
                    forall|j: int| 0 <= j < 16 ==> (#[trigger] b@[j]).in_world(),
                    init == Some(
                        (
                            0u64,
                            Self::spec_init_frontier(tower_id),
                            Self::spec_zero_frontier(),
                            1int,
                        ),
                    ),
                    Self::spec_scan_layers(self.world, init, layer as int) == Some(layer_start),
                    cnt as int == (if layer_start.3 < 16 {
                        layer_start.3
                    } else {
                        16int
                    }),
                    reset == Some((layer_start.0, layer_start.1, layer_start.2, 0int)),
                    layer_start.1 == a@,
                    Self::spec_scan_cells(self.world, reset, a@, i as int) == Some(
                        (set, a@, b@, len as int),
                    ),
                decreases cnt - i,
            {
                let cur = a[i];
                let around = cur.neighbors();
                let ghost cell_start: Option<(u64, Seq<TowerId>, Seq<TowerId>, int)> = Some(
                    (set, a@, b@, len as int),
                );
                let mut j: usize = 0;
                while j < around.len()
                    invariant
                        self.wf(),
                        a@.len() == 16,
                        b@.len() == 16,
                        i < cnt <= 16,
                        j <= around@.len(),
                        around@.len() <= 8,
                        len <= 8 * i + j,
                        layer < 4,
                        around@ == a@[i as int].spec_neighbors(),
                        forall|q: int|
                            0 <= q < around@.len() ==> (#[trigger] around@[q]).in_world(),
                        forall|q: int| 0 <= q < 16 ==> (#[trigger] a@[q]).in_world(),
                        forall|q: int| 0 <= q < 16 ==> (#[trigger] b@[q]).in_world(),
                        init == Some(
                            (
                                0u64,
                                Self::spec_init_frontier(tower_id),
                                Self::spec_zero_frontier(),
                                1int,
                            ),
                        ),
                        Self::spec_scan_layers(self.world, init, layer as int) == Some(layer_start),
                        cnt as int == (if layer_start.3 < 16 {
                            layer_start.3
                        } else {
                            16int
                        }),
                        reset == Some((layer_start.0, layer_start.1, layer_start.2, 0int)),
                        layer_start.1 == a@,
                        Self::spec_scan_cells(self.world, reset, a@, i as int) == cell_start,
                        Self::spec_scan_nbrs(self.world, cell_start, around@, j as int) == Some(
                            (set, a@, b@, len as int),
                        ),
                    decreases around@.len() - j,
                {
                    let n = around[j];
                    let index: u64 = (n.x % 8) as u64 + ((n.y % 8) as u64) * 8;
                    proof {
                        assert(index == Self::spec_scan_index(n) && index < 64);
                    }
                    let bit: u64 = 1u64 << index;
                    let inserted = set & bit == 0;
                    set = set | bit;
                    if inserted {
                        let occupied = match self.world.get(n) {
                            Some(t) => t.player_id.is_some() || !t.inbound_forces.is_empty(),
                            None => false,
                        };
                        if occupied {
                            proof {
                                assert(Self::spec_scan_nbrs(self.world, cell_start, around@, j as int + 1)
                                    is None);
                                Self::lemma_scan_nbrs_none_prop(self.world, 
                                    cell_start,
                                    around@,
                                    j as int + 1,
                                    around@.len() as int,
                                );
                                assert(Self::spec_scan_cells(self.world, reset, a@, i as int + 1) is None);
                                Self::lemma_scan_cells_none_prop(self.world, 
                                    reset,
                                    a@,
                                    i as int + 1,
                                    cnt as int,
                                );
                                assert(Self::spec_scan_layers(self.world, init, layer as int + 1) is None);
                                Self::lemma_scan_layers_none_prop(self.world, init, layer as int + 1, 4);
                                assert(!Self::spec_safe_spawn(self.world, tower_id));
                            }
                            return false;
                        }
                        b.set(len % 16, n);
                        len = len + 1;
                    }
                    j = j + 1;
                }
                i = i + 1;
            }
            std::mem::swap(&mut a, &mut b);
            layer = layer + 1;
        }
        let mut ones: u32 = 0;
        let mut bitpos: u64 = 0;
        while bitpos < 64
            invariant
                bitpos <= 64,
                ones <= bitpos,
                ones as int == Self::spec_ones(set, bitpos as int),
                Self::spec_scan_layers(self.world, init, 4) == Some((set, a@, b@, len as int)),
                init == Some(
                    (0u64, Self::spec_init_frontier(tower_id), Self::spec_zero_frontier(), 1int),
                ),
            decreases 64 - bitpos,
        {
            proof {
                assert((set >> bitpos) & 1 <= 1) by (bit_vector);
            }
            ones = ones + ((set >> bitpos) & 1) as u32;
            bitpos = bitpos + 1;
        }
        ones >= 12
    }

    /// The cell can host a fresh spawn: it has a walk toward the center,
    /// makes a good spawn, and the bounded safety scan accepts it.
    pub fn is_spawnable(&self, tower_id: TowerId) -> (r: bool)
        requires
            self.wf(),
            tower_id.in_world(),
        ensures
            r == (!(tower_id.x == crate::id::CENTER_X && tower_id.y == crate::id::CENTER_Y)
                && Self::spec_good_spawn(self.world, tower_id) && Self::spec_safe_spawn(self.world, tower_id)),
    {
        tower_id.connectivity().is_some() && self.is_good_spawn(tower_id) && self.is_safe_spawn(
            tower_id,
        )
    }
}

} // verus!

verus! {

impl TowerService {
    /// Finds a spawnable tower for a dead player and spawns them there:
    /// the search draws candidates around the world center, widening its
    /// radius as it fails; on success the spawn bubble is materialized,
    /// the candidate becomes the player's tower holding their ruler, and
    /// the surrounding cells are cleared of zombies. The search itself is
    /// randomized, so running out of attempts is a possible outcome that
    /// changes nothing.
    pub fn spawn_player(&mut self, player_id: PlayerId) -> (r: Result<(), TowerError>)
        requires
            old(self).wf(),
        ensures
            final(self).wf(),
            r == Err::<(), TowerError>(TowerError::PlayerNotInGame) <==> !old(self).spec_has_player(player_id),
            r == Err::<(), TowerError>(TowerError::AlreadyAlive) <==> (old(self).spec_player(
                player_id,
            ) matches Some(p) && p.alive),
            r is Err ==> final(self).world == old(self).world && final(self).players == old(
                self,
            ).players && final(self).outbox == old(self).outbox && final(self).active == old(
                self,
            ).active,
            r is Ok ==> {
                &&& final(self).spec_player(player_id) matches Some(p2) && p2.alive && p2.lifetime
                    == 0 && p2.death_reason is None && p2.score == 0 && p2.alerts
                    == crate::player::Alerts::spec_default()
                &&& exists|tid: TowerId, g: int|
                    {
                        &&& tid.in_world() && !(tid.x == crate::id::CENTER_X && tid.y
                            == crate::id::CENTER_Y)
                        &&& Self::spec_good_spawn(old(self).world, tid)
                        &&& Self::spec_safe_spawn(old(self).world, tid)
                        &&& (final(self).world.spec_get_tower(tid) matches Some(t) && t.player_id
                            == Some(player_id) && t.units.spec_has_ruler())
                        &&& old(self).outbox@.len() <= g < final(self).outbox@.len()
                        &&& forall|i: int|
                            old(self).outbox@.len() <= i < g ==> ((
                            #[trigger] final(self).outbox@[i]) matches Dispatch::ChunkInput(
                                _c,
                                ChunkInput::Generate { .. },
                            ))
                        &&& (#[trigger] final(self).outbox@[g]) == Dispatch::ChunkInput(
                            tid.spec_chunk(),
                            ChunkInput::Spawn { tower_id: tid.spec_rel(), player_id },
                        )
                        &&& final(self).outbox@.len() == g + 1 + (
                        #[trigger] tid.spec_neighbors()).len()
                        &&& forall|j: int|
                            0 <= j < tid.spec_neighbors().len() ==> final(self).outbox@[g + 1 + j]
                                == Dispatch::ChunkInput(
                                (#[trigger] tid.spec_neighbors()[j]).spec_chunk(),
                                ChunkInput::ClearZombies {
                                    tower_id: tid.spec_neighbors()[j].spec_rel(),
                                },
                            )
                        &&& forall|c: TowerId|
                            #[trigger] crate::flood::spec_bubble_reachable(
                                tid,
                                crate::flood::spec_spawn_r2(player_id),
                                c,
                            ) ==> final(self).world.spec_has_tower(c)
                    }
                &&& final(self).outbox@.len() > old(self).outbox@.len()
                &&& forall|i: int|
                    0 <= i < old(self).outbox@.len() ==> final(self).outbox@[i] == old(
                        self,
                    ).outbox@[i]
            },
    {
        let alive = match self.player(player_id) {
            Some(p) => p.alive,
            None => {
                return Err(TowerError::PlayerNotInGame);
            }
        };
        if alive {
            return Err(TowerError::AlreadyAlive);
        }
        let mut governor: u32 = 100000;
        let mut search_radius: u16 = 5;
        let mut found: Option<TowerId> = None;
        while governor > 0 && found.is_none()
            invariant
                self.wf(),
                self.world == old(self).world,
                self.players == old(self).players,
                self.outbox == old(self).outbox,
                self.active == old(self).active,
                search_radius >= 1,
                search_radius <= 30000,
                found matches Some(tid) ==> tid.in_world() && Self::spec_good_spawn(
                    old(self).world,
                    tid,
                ) && Self::spec_safe_spawn(old(self).world, tid) && !(tid.x
                    == crate::id::CENTER_X && tid.y == crate::id::CENTER_Y),
            decreases governor,
        {
            governor = governor - 1;
            let span: u32 = 2 * (search_radius as u32) + 1;
            let ox = crate::rng::gen_index(&mut self.rng, span) as i64 - search_radius as i64;
            let oy = crate::rng::gen_index(&mut self.rng, span) as i64 - search_radius as i64;
            proof {
                assert(ox * ox <= 30001 * 30001 && oy * oy <= 30001 * 30001 && (
                search_radius as i64) * (search_radius as i64) <= 30001 * 30001 && ox * ox >= 0
                    && oy * oy >= 0) by (nonlinear_arith)
                    requires
                        -30001 <= ox <= 30001,
                        -30001 <= oy <= 30001,
                        0 <= search_radius as i64 <= 30000;
            }
            let inside = ox * ox + oy * oy <= (search_radius as i64) * (search_radius as i64);
            if inside {
                let cx = crate::id::CENTER_X as i64 + ox;
                let cy = crate::id::CENTER_Y as i64 + oy;
                let max_coord = crate::id::WORLD_SIZE as i64 - 1;
                let cx = if cx < 0 {
                    0
                } else if cx > max_coord {
                    max_coord
                } else {
                    cx
                };
                let cy = if cy < 0 {
                    0
                } else if cy > max_coord {
                    max_coord
                } else {
                    cy
                };
                let candidate = TowerId { x: cx as u16, y: cy as u16 };
                if self.is_spawnable(candidate) {
                    found = Some(candidate);
                }
            }
            if found.is_none() && governor % 8 == 0 && search_radius < 30000 {
                search_radius = search_radius + 1;
            }
        }
        let tower_id = match found {
            Some(t) => t,
            None => {
                return Err(TowerError::NoSpawnableTower);
            }
        };
        let player = self.take_player(player_id).unwrap();
        proof {
            old(self).lemma_player_wf(player_id);
        }
        let mut towers: Vec<TowerId> = Vec::new();
        towers.push(tower_id);
        let spawn_type = self.cell_type(tower_id);
        let mut tower_counts = crate::tower_type::TowerArray::new();
        tower_counts.set(spawn_type, 1);
        let updated = Player {
            alive: true,
            lifetime: 0,
            death_reason: None,
            score: 0,
            alerts: crate::player::Alerts::default(),
            towers,
            tower_counts,
            ..player
        };
        self.set_player(player_id, updated);
        // Materialize the spawn bubble: walk each bubble cell toward the
        // center until a materialized tower is reached.
        let cells = crate::flood::spawn_bubble(tower_id, player_id);
        let mut seen = crate::towerset::TowerSet::with_world_bounds();
        let mut acc: Vec<TowerId> = Vec::new();
        let mut ci: usize = 0;
        while ci < cells.len()
            invariant
                self.wf(),
                ci <= cells@.len(),
                forall|j: int| 0 <= j < cells@.len() ==> (#[trigger] cells@[j]).in_world(),
                seen.wf(),
                forall|i: int| 0 <= i < acc@.len() ==> (#[trigger] acc@[i]).in_world(),
                forall|idc: TowerId|
                    (#[trigger] seen.spec_contains(idc)) ==> acc@.contains(idc),
                forall|j: int|
                    0 <= j < ci ==> (self.world.spec_has_tower(#[trigger] cells@[j])
                        || acc@.contains(cells@[j])),
                self.spec_player(player_id) == Some(updated),
                self.world == old(self).world,
                self.outbox == old(self).outbox,
            decreases cells@.len() - ci,
        {
            let ghost pre_seen = seen;
            let ghost pre_acc = acc@;
            let cell = cells[ci];
            self.traverse(&mut seen, &mut acc, cell);
            proof {
                let walk = Self::spec_traverse_walk(
                    self.world,
                    pre_seen.spec_as_set(),
                    cell,
                );
                assert(acc@ == pre_acc + walk);
                assert forall|x: TowerId| pre_acc.contains(x) implies acc@.contains(x) by {
                    let xi = choose|xi: int| 0 <= xi < pre_acc.len() && pre_acc[xi] == x;
                    assert(acc@[xi] == x);
                }
                assert forall|x: TowerId| walk.contains(x) implies acc@.contains(x) by {
                    let wi = choose|wi: int| 0 <= wi < walk.len() && walk[wi] == x;
                    assert(acc@[pre_acc.len() + wi] == x);
                }
                assert(self.world.spec_has_tower(cell) || acc@.contains(cell)) by {
                    if !self.world.spec_has_tower(cell) {
                        if pre_seen.spec_contains(cell) {
                            assert(pre_acc.contains(cell));
                        } else {
                            assert(walk[0] == cell);
                            assert(walk.contains(cell));
                        }
                    }
                }
            }
            ci = ci + 1;
        }
        let ghost before_gen = *self;
        self.generate(acc);
        let ghost after_gen = *self;
        proof {
            assert(forall|i: int|
                0 <= i < old(self).outbox@.len() ==> self.outbox@[i] == old(self).outbox@[i]);
            assert(forall|i: int|
                old(self).outbox@.len() <= i < after_gen.outbox@.len() ==> ((
                #[trigger] after_gen.outbox@[i]) matches Dispatch::ChunkInput(
                    _c,
                    ChunkInput::Generate { .. },
                )));
            assert forall|j: int|
                0 <= j < cells@.len() implies self.world.spec_has_tower(
                #[trigger] cells@[j],
            ) by {
                if acc@.contains(cells@[j]) {
                    let ai = choose|ai: int| 0 <= ai < acc@.len() && acc@[ai] == cells@[j];
                    assert(self.world.spec_has_tower(acc@[ai]));
                } else {
                    assert(before_gen.world.spec_has_tower(cells@[j]));
                }
            }
        }
        // The chunk spawns the tower for the player: it becomes owned and
        // garrisons the player's ruler.
        proof {
            if before_gen.world.spec_has_tower(tower_id) {
                assert(self.world.spec_get_tower(tower_id) == before_gen.world.spec_get_tower(
                    tower_id,
                ));
            }
        }
        let mut t = match self.world.take(tower_id) {
            Some(t) => t,
            None => Tower::new(tower_id),
        };
        proof {
            assert(t.player_id is None);
        }
        if t.player_id.is_none() {
            let _ = t.units.subtract(Unit::Ruler, 255);
            let _ = t.units.subtract(Unit::Shield, 255);
            t.supply_line = None;
            t.set_player_id(Some(player_id));
            t.units.add(Unit::Ruler, 1);
        }
        proof {
            assert(t.wf());
        }
        self.world.insert(tower_id, t);
        let ghost gen_end = self.outbox@.len() as int;
        let (chunk, rel) = tower_id.split();
        self.outbox.push(
            Dispatch::ChunkInput(chunk, ChunkInput::Spawn { tower_id: rel, player_id }),
        );
        proof {
            assert(forall|i: int|
                0 <= i < old(self).outbox@.len() ==> self.outbox@[i] == old(self).outbox@[i]);
            assert(self.outbox@[gen_end] == Dispatch::ChunkInput(
                tower_id.spec_chunk(),
                ChunkInput::Spawn { tower_id: tower_id.spec_rel(), player_id },
            ));
        }
        let nbrs = tower_id.neighbors();
        let ghost with_spawn = *self;
        let mut k: usize = 0;
        while k < nbrs.len()
            invariant
                self.wf(),
                k <= nbrs@.len(),
                nbrs@ == tower_id.spec_neighbors(),
                forall|i: int|
                    0 <= i < nbrs@.len() ==> tower_id.spec_is_neighbor(#[trigger] nbrs@[i]),
                self.world == with_spawn.world,
                self.players == with_spawn.players,
                self.outbox@.len() == with_spawn.outbox@.len() + k,
                forall|i: int|
                    0 <= i < with_spawn.outbox@.len() ==> self.outbox@[i]
                        == with_spawn.outbox@[i],
                forall|j: int|
                    0 <= j < k ==> self.outbox@[with_spawn.outbox@.len() + j]
                        == Dispatch::ChunkInput(
                        (#[trigger] nbrs@[j]).spec_chunk(),
                        ChunkInput::ClearZombies { tower_id: nbrs@[j].spec_rel() },
                    ),
            decreases nbrs@.len() - k,
        {
            let n = nbrs[k];
            let (nchunk, nrel) = n.split();
            self.outbox.push(
                Dispatch::ChunkInput(nchunk, ChunkInput::ClearZombies { tower_id: nrel }),
            );
            k = k + 1;
        }
        proof {
            assert(final(self).world.spec_get_tower(tower_id) matches Some(t2) && t2.player_id
                == Some(player_id) && t2.units.spec_has_ruler());
            assert(final(self).spec_player(player_id) matches Some(p2) && p2.alive
                && p2.lifetime == 0 && p2.death_reason is None && p2.score == 0 && p2.alerts
                == crate::player::Alerts::spec_default());
            assert(final(self).outbox@.len() > old(self).outbox@.len());
            assert(forall|i: int|
                0 <= i < old(self).outbox@.len() ==> final(self).outbox@[i] == old(
                    self,
                ).outbox@[i]);
            assert(final(self).outbox@[gen_end] == Dispatch::ChunkInput(
                tower_id.spec_chunk(),
                ChunkInput::Spawn { tower_id: tower_id.spec_rel(), player_id },
            ));
            assert(final(self).outbox@.len() == gen_end + 1 + tower_id.spec_neighbors().len());
            assert forall|i: int|
                old(self).outbox@.len() <= i < gen_end implies ((
            #[trigger] final(self).outbox@[i]) matches Dispatch::ChunkInput(
                _c,
                ChunkInput::Generate { .. },
            )) by {
                assert(final(self).outbox@[i] == with_spawn.outbox@[i]);
                assert(with_spawn.outbox@[i] == after_gen.outbox@[i]);
                assert(after_gen.outbox@[i] matches Dispatch::ChunkInput(
                    _c2,
                    ChunkInput::Generate { .. },
                ));
            }
            assert(forall|j: int|
                0 <= j < tower_id.spec_neighbors().len() ==> final(self).outbox@[gen_end + 1 + j]
                    == Dispatch::ChunkInput(
                    (#[trigger] tower_id.spec_neighbors()[j]).spec_chunk(),
                    ChunkInput::ClearZombies {
                        tower_id: tower_id.spec_neighbors()[j].spec_rel(),
                    },
                ));
            assert forall|c: TowerId|
                #[trigger] crate::flood::spec_bubble_reachable(
                    tower_id,
                    crate::flood::spec_spawn_r2(player_id),
                    c,
                ) implies final(self).world.spec_has_tower(c) by {
                crate::flood::lemma_closed_contains_reachable(
                    tower_id,
                    (crate::flood::spec_spawn_radius(player_id) as int)
                        * (crate::flood::spec_spawn_radius(player_id) as int),
                    cells@,
                    c,
                );
                let j = choose|j: int| 0 <= j < cells@.len() && cells@[j] == c;
                assert(after_gen.world.spec_has_tower(cells@[j]));
                if c == tower_id {
                    assert(final(self).world.spec_has_tower(tower_id));
                } else {
                    assert(final(self).world.spec_get_tower(c)
                        == after_gen.world.spec_get_tower(c));
                    assert(after_gen.world.spec_get_tower(c) is Some) by {
                        if after_gen.world.spec_get_tower(c) is None {
                            assert(!after_gen.world.spec_has_tower(c));
                        }
                    }
                }
            }
        }
        Ok(())
    }
}

} // verus!

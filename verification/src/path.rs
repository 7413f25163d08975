//! Paths between towers and the forces that travel them.

use vstd::prelude::*;
use crate::id::TowerId;
use crate::player::PlayerId;
use crate::units::Units;

verus! {

/// A sequence of waypoints from a source tower through the world; the
/// source itself is the first hop.
#[derive(Clone, PartialEq, Eq, Hash, Debug)]
pub struct Path {
    pub hops: Vec<TowerId>,
}

impl Path {
    /// A path from its waypoints.
    pub fn new(hops: Vec<TowerId>) -> (r: Path)
        ensures
            r.hops@ == hops@,
    {
        Path { hops }
    }

    /// The two paths visit the same waypoints.
    pub fn same_as(&self, other: &Path) -> (r: bool)
        ensures
            r == (self.hops@ =~= other.hops@),
    {
        if self.hops.len() != other.hops.len() {
            proof {
                assert(!(self.hops@ =~= other.hops@));
            }
            return false;
        }
        let mut k: usize = 0;
        while k < self.hops.len()
            invariant
                self.hops@.len() == other.hops@.len(),
                k <= self.hops@.len(),
                forall|j: int| 0 <= j < k ==> self.hops@[j] == other.hops@[j],
            decreases self.hops@.len() - k,
        {
            if !(self.hops[k] == other.hops[k]) {
                proof {
                    assert(!(self.hops@ =~= other.hops@));
                }
                return false;
            }
            k = k + 1;
        }
        proof {
            assert(self.hops@ =~= other.hops@);
        }
        true
    }
}

/// A bundle of mobile units traveling along a path between towers.
#[derive(Clone, PartialEq, Eq, Hash, Debug)]
pub struct Force {
    pub player_id: Option<PlayerId>,
    pub units: Units,
    pub path: Path,
}

/// The compact category of a failed player-facing operation.
#[derive(Copy, Clone, PartialEq, Eq, Structural, Hash, Debug)]
pub enum TowerError {
    NoTower,
    NotOwned,
    EmptyForce,
    InvalidPath,
    InvalidSupplyLine,
    MissingPrerequisite,
    InvalidUpgradePath,
    UpgradePending,
    NonexistentPlayer,
    InactiveAlly,
    AlreadyAlive,
    PlayerNotInGame,
    NoSpawnableTower,
}

impl TowerError {
    /// The user-facing message of the error.
    pub fn message(self) -> (r: &'static str)
        ensures
            match self {
                TowerError::NoTower => r@ == "no tower"@,
                TowerError::NotOwned => r@ == "source not under player's control"@,
                TowerError::EmptyForce => r@ == "empty force"@,
                TowerError::InvalidPath => r@ == "invalid path"@,
                TowerError::InvalidSupplyLine => r@ == "invalid supply line"@,
                TowerError::MissingPrerequisite => r@ == "missing prerequisite"@,
                TowerError::InvalidUpgradePath => r@ == "invalid upgrade path"@,
                TowerError::UpgradePending => r@ == "upgrade already pending"@,
                TowerError::NonexistentPlayer => r@ == "non-existent player"@,
                TowerError::InactiveAlly => r@ == "alliance with inactive player"@,
                TowerError::AlreadyAlive => r@ == "already alive"@,
                TowerError::PlayerNotInGame => r@ == "player not in game"@,
                TowerError::NoSpawnableTower => r@ == "couldn't find spawnable tower"@,
            },
    {
        match self {
            TowerError::NoTower => "no tower",
            TowerError::NotOwned => "source not under player's control",
            TowerError::EmptyForce => "empty force",
            TowerError::InvalidPath => "invalid path",
            TowerError::InvalidSupplyLine => "invalid supply line",
            TowerError::MissingPrerequisite => "missing prerequisite",
            TowerError::InvalidUpgradePath => "invalid upgrade path",
            TowerError::UpgradePending => "upgrade already pending",
            TowerError::NonexistentPlayer => "non-existent player",
            TowerError::InactiveAlly => "alliance with inactive player",
            TowerError::AlreadyAlive => "already alive",
            TowerError::PlayerNotInGame => "player not in game",
            TowerError::NoSpawnableTower => "couldn't find spawnable tower",
        }
    }
}

} // verus!

//! Messages the world facade dispatches to chunk and player actors.

use vstd::prelude::*;
use crate::id::{ChunkId, RelativeTowerId};
use crate::path::Path;
use crate::player::PlayerId;
use crate::tower_type::TowerType;

verus! {

/// Input for the chunk actor owning a tower.
#[derive(Clone, PartialEq, Eq, Debug)]
pub enum ChunkInput {
    /// Initialize an owned tower for a fresh player.
    Spawn { tower_id: RelativeTowerId, player_id: PlayerId },
    /// Drop dead-neutral state around a spawn.
    ClearZombies { tower_id: RelativeTowerId },
    DeployForce { tower_id: RelativeTowerId, path: Path },
    SetSupplyLine { tower_id: RelativeTowerId, path: Option<Path> },
    UpgradeTower { tower_id: RelativeTowerId, tower_type: TowerType },
    /// Materialize a batch of cells.
    Generate { tower_ids: Vec<RelativeTowerId> },
}

/// Maintenance input for a chunk actor.
#[derive(Clone, PartialEq, Eq, Debug)]
pub enum ChunkMaintenance {
    KillPlayer { player_id: PlayerId },
    Destroy { tower_ids: Vec<RelativeTowerId> },
}

/// Input for a player actor.
#[derive(Copy, Clone, PartialEq, Eq, Structural, Debug)]
pub enum PlayerInput {
    NewAlliance(PlayerId),
    AddAlly(PlayerId),
    RemoveAlly(PlayerId),
}

/// Maintenance input for a player actor.
#[derive(Copy, Clone, PartialEq, Eq, Structural, Debug)]
pub enum PlayerMaintenance {
    RemoveDeadAlly(PlayerId),
    Died,
}

/// One dispatched message, recorded in the order the facade sent it.
#[derive(Clone, PartialEq, Eq, Debug)]
pub enum Dispatch {
    ChunkInput(ChunkId, ChunkInput),
    ChunkMaintenance(ChunkId, ChunkMaintenance),
    PlayerInput(PlayerId, PlayerInput),
    PlayerMaintenance(PlayerId, PlayerMaintenance),
}

} // verus!

//! Player identity and the player aggregate mutated by the world
//! operations.

use vstd::prelude::*;
use crate::id::TowerId;
use crate::tower_type::TowerArray;
use crate::unit::Ticks;

verus! {

/// Lowest identifier reserved for bot players.
pub const BOT_ID_START: u32 = 0x8000_0000;

/// Identity of a player; bots occupy the upper half of the id space.
#[derive(Copy, Clone, PartialEq, Eq, Structural, Hash, Debug)]
pub struct PlayerId {
    pub value: u32,
}

impl PlayerId {
    /// The player is a bot.
    pub open spec fn spec_is_bot(self) -> bool {
        self.value >= BOT_ID_START
    }

    /// The player is a bot.
    pub fn is_bot(self) -> (r: bool)
        ensures
            r == self.spec_is_bot(),
    {
        self.value >= BOT_ID_START
    }
}

/// Why a player left the game.
#[derive(Copy, Clone, PartialEq, Eq, Structural, Hash, Debug)]
pub enum DeathReason {
    Defeated,
    Disconnected,
}

/// User-facing one-shot flags kept on the player aggregate.
#[derive(Copy, Clone, PartialEq, Eq, Structural, Hash, Debug)]
pub struct Alerts {
    pub deployed_any_force: bool,
    pub set_any_supply_line: bool,
    pub unset_any_supply_line: bool,
    pub upgraded_any_tower: bool,
    pub made_alliance: bool,
}

impl Default for Alerts {
    /// No flag raised.
    fn default() -> (r: Alerts)
        ensures
            r == Alerts::spec_default(),
    {
        Alerts {
            deployed_any_force: false,
            set_any_supply_line: false,
            unset_any_supply_line: false,
            upgraded_any_tower: false,
            made_alliance: false,
        }
    }
}

impl Alerts {
    /// No flag raised.
    pub open spec fn spec_default() -> Alerts {
        Alerts {
            deployed_any_force: false,
            set_any_supply_line: false,
            unset_any_supply_line: false,
            upgraded_any_tower: false,
            made_alliance: false,
        }
    }
}

/// The per-player aggregate.
#[derive(Clone, PartialEq, Eq, Debug)]
pub struct Player {
    pub alive: bool,
    pub lifetime: Ticks,
    pub death_reason: Option<DeathReason>,
    pub score: u32,
    pub alerts: Alerts,
    pub allies: Vec<PlayerId>,
    pub towers: Vec<TowerId>,
    pub tower_counts: TowerArray,
}

impl Player {
    /// The aggregate is well formed: the count table is total and the ally
    /// and tower sets hold no duplicates.
    pub open spec fn wf(self) -> bool {
        &&& self.tower_counts.wf()
        &&& forall|i: int, j: int|
            0 <= i < j < self.allies@.len() ==> self.allies@[i] != self.allies@[j]
        &&& forall|i: int, j: int|
            0 <= i < j < self.towers@.len() ==> self.towers@[i] != self.towers@[j]
    }

    /// A dead player with no holdings.
    pub fn new() -> (r: Player)
        ensures
            r.wf(),
            !r.alive,
            r.lifetime == 0,
            r.death_reason is None,
            r.score == 0,
            r.alerts == Alerts::spec_default(),
            r.allies@.len() == 0,
            r.towers@.len() == 0,
            forall|t: crate::tower_type::TowerType| r.tower_counts.spec_get(t) == 0,
    {
        Player {
            alive: false,
            lifetime: 0,
            death_reason: None,
            score: 0,
            alerts: Alerts::default(),
            allies: Vec::new(),
            towers: Vec::new(),
            tower_counts: TowerArray::new(),
        }
    }

    /// The player currently counts `other` among their allies.
    pub fn has_ally(&self, other: PlayerId) -> (r: bool)
        ensures
            r == self.allies@.contains(other),
    {
        let mut k: usize = 0;
        while k < self.allies.len()
            invariant
                k <= self.allies@.len(),
                forall|j: int| 0 <= j < k ==> self.allies@[j] != other,
            decreases self.allies@.len() - k,
        {
            if self.allies[k] == other {
                return true;
            }
            k = k + 1;
        }
        false
    }
}

} // verus!

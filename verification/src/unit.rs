//! Unit kinds and their static metadata.

use vstd::prelude::*;
use crate::tower_type::TowerType;

verus! {

/// Ticks of the fixed-rate simulation clock.
pub type Ticks = u16;

/// A closed enumeration of unit kinds.
///
/// `Ruler` is a player's king: its presence restricts a tower's generation
/// to `Shield`. `Shield` is defensive and never deployed in forces.
#[derive(Copy, Clone, PartialEq, Eq, Structural, Hash, Debug)]
pub enum Unit {
    Soldier,
    Tank,
    Fighter,
    Bomber,
    Chopper,
    Frigate,
    Submarine,
    Shell,
    Emp,
    Nuke,
    Shield,
    Ruler,
}

/// Number of unit kinds.
pub const UNIT_COUNT: usize = 12;

/// Damage dealt by a ranged attack of unbounded strength.
pub const INFINITE_DAMAGE: u8 = 100;

/// Maximum length of a path edge walked by a non-ranged mobile unit,
/// in world units (tower centers are `TowerId::CONVERSION` cells apart).
pub const DEFAULT_EDGE_DISTANCE: u32 = 15;

impl Unit {
    /// Stable index of the variant, also its iteration order.
    pub open spec fn spec_index(self) -> int {
        match self {
            Unit::Soldier => 0,
            Unit::Tank => 1,
            Unit::Fighter => 2,
            Unit::Bomber => 3,
            Unit::Chopper => 4,
            Unit::Frigate => 5,
            Unit::Submarine => 6,
            Unit::Shell => 7,
            Unit::Emp => 8,
            Unit::Nuke => 9,
            Unit::Shield => 10,
            Unit::Ruler => 11,
        }
    }

    /// All unit kinds, in iteration order.
    pub open spec fn spec_iter() -> Seq<Unit> {
        seq![
            Unit::Soldier,
            Unit::Tank,
            Unit::Fighter,
            Unit::Bomber,
            Unit::Chopper,
            Unit::Frigate,
            Unit::Submarine,
            Unit::Shell,
            Unit::Emp,
            Unit::Nuke,
            Unit::Shield,
            Unit::Ruler,
        ]
    }

    /// Every unit kind occurs in `spec_iter`, at its own index.
    pub proof fn lemma_iter_complete(u: Unit)
        ensures
            0 <= u.spec_index() < UNIT_COUNT,
            Self::spec_iter().len() == UNIT_COUNT,
            Self::spec_iter()[u.spec_index()] == u,
    {
    }

    /// All unit kinds, in iteration order.
    pub fn iter() -> (r: Vec<Unit>)
        ensures
            r@ == Self::spec_iter(),
    {
        let r = vec![
            Unit::Soldier,
            Unit::Tank,
            Unit::Fighter,
            Unit::Bomber,
            Unit::Chopper,
            Unit::Frigate,
            Unit::Submarine,
            Unit::Shell,
            Unit::Emp,
            Unit::Nuke,
            Unit::Shield,
            Unit::Ruler,
        ];
        proof {
            assert(r@ =~= Self::spec_iter());
        }
        r
    }

    /// Whether the unit can travel in a force deployed from a tower of the
    /// given type. `Shield` never travels; naval units travel only out of
    /// aquatic towers.
    pub open spec fn spec_is_mobile(self, tower_type: Option<TowerType>) -> bool {
        match self {
            Unit::Shield => false,
            Unit::Frigate | Unit::Submarine => match tower_type {
                Some(t) => t.spec_is_aquatic(),
                None => true,
            },
            _ => true,
        }
    }

    /// Whether the unit can travel in a force deployed from a tower of the
    /// given type.
    pub fn is_mobile(self, tower_type: Option<TowerType>) -> (r: bool)
        ensures
            r == self.spec_is_mobile(tower_type),
    {
        match self {
            Unit::Shield => false,
            Unit::Frigate | Unit::Submarine => match tower_type {
                Some(t) => t.is_aquatic(),
                None => true,
            },
            _ => true,
        }
    }

    /// Reach of the unit when fired as a ranged attack, in world units.
    /// `None` for units that travel instead of being fired.
    pub open spec fn spec_ranged_distance(self) -> Option<u32> {
        match self {
            Unit::Shell => Some(20u32),
            Unit::Emp => Some(40u32),
            Unit::Nuke => Some(60u32),
            _ => None,
        }
    }

    /// Reach of the unit when fired as a ranged attack, in world units.
    pub fn ranged_distance(self) -> (r: Option<u32>)
        ensures
            r == self.spec_ranged_distance(),
    {
        match self {
            Unit::Shell => Some(20u32),
            Unit::Emp => Some(40u32),
            Unit::Nuke => Some(60u32),
            _ => None,
        }
    }

    /// Longest path edge the unit can traverse, in world units: its ranged
    /// reach if it is fired, the walking default otherwise.
    pub open spec fn spec_edge_distance(self) -> u32 {
        match self.spec_ranged_distance() {
            Some(d) => d,
            None => DEFAULT_EDGE_DISTANCE,
        }
    }

    /// Longest path edge the unit can traverse, in world units.
    pub fn edge_distance(self) -> (r: u32)
        ensures
            r == self.spec_edge_distance(),
    {
        match self.ranged_distance() {
            Some(d) => d,
            None => DEFAULT_EDGE_DISTANCE,
        }
    }
}

} // verus!

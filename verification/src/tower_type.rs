//! The tower-type catalog: a closed enumeration of tower kinds with
//! per-variant metadata (capacities, generation rates, sensor radius,
//! prerequisites, spawnability, score weight, scale) and the upgrade
//! lattice over them.

use vstd::prelude::*;
use crate::unit::{Ticks, Unit};

verus! {

broadcast use vstd::seq_lib::lemma_seq_contains_after_push;

/// Number of tower kinds.
pub const TOWER_TYPE_COUNT: usize = 38;

/// The kind of a tower; governs capacities, generation and prerequisites.
#[derive(Copy, Clone, PartialEq, Eq, Structural, PartialOrd, Ord, Hash, Debug)]
pub enum TowerType {
    Airfield,
    Armory,
    Artillery,
    Barracks,
    Buoy,
    Bunker,
    Capitol,
    Centrifuge,
    City,
    Cliff,
    Dock,
    Drydock,
    Ews,
    Factory,
    Generator,
    Headquarters,
    Helipad,
    Icbm,
    Lab,
    Laser,
    Launcher,
    Lighthouse,
    Metropolis,
    Mine,
    Minefield,
    Projector,
    Quarry,
    Radar,
    Rampart,
    Reactor,
    Refinery,
    Rig,
    Rocket,
    Runway,
    Satellite,
    Silo,
    Town,
    Village,
}

impl TowerType {
    /// Stable index of the variant: its persisted discriminant and its
    /// position in iteration order.
    pub open spec fn spec_index(self) -> int {
        match self {
            TowerType::Airfield => 0,
            TowerType::Armory => 1,
            TowerType::Artillery => 2,
            TowerType::Barracks => 3,
            TowerType::Buoy => 4,
            TowerType::Bunker => 5,
            TowerType::Capitol => 6,
            TowerType::Centrifuge => 7,
            TowerType::City => 8,
            TowerType::Cliff => 9,
            TowerType::Dock => 10,
            TowerType::Drydock => 11,
            TowerType::Ews => 12,
            TowerType::Factory => 13,
            TowerType::Generator => 14,
            TowerType::Headquarters => 15,
            TowerType::Helipad => 16,
            TowerType::Icbm => 17,
            TowerType::Lab => 18,
            TowerType::Laser => 19,
            TowerType::Launcher => 20,
            TowerType::Lighthouse => 21,
            TowerType::Metropolis => 22,
            TowerType::Mine => 23,
            TowerType::Minefield => 24,
            TowerType::Projector => 25,
            TowerType::Quarry => 26,
            TowerType::Radar => 27,
            TowerType::Rampart => 28,
            TowerType::Reactor => 29,
            TowerType::Refinery => 30,
            TowerType::Rig => 31,
            TowerType::Rocket => 32,
            TowerType::Runway => 33,
            TowerType::Satellite => 34,
            TowerType::Silo => 35,
            TowerType::Town => 36,
            TowerType::Village => 37,
        }
    }

    /// The persisted `u8` form of the variant.
    pub fn to_u8(self) -> (r: u8)
        ensures
            r as int == self.spec_index(),
    {
        match self {
            TowerType::Airfield => 0,
            TowerType::Armory => 1,
            TowerType::Artillery => 2,
            TowerType::Barracks => 3,
            TowerType::Buoy => 4,
            TowerType::Bunker => 5,
            TowerType::Capitol => 6,
            TowerType::Centrifuge => 7,
            TowerType::City => 8,
            TowerType::Cliff => 9,
            TowerType::Dock => 10,
            TowerType::Drydock => 11,
            TowerType::Ews => 12,
            TowerType::Factory => 13,
            TowerType::Generator => 14,
            TowerType::Headquarters => 15,
            TowerType::Helipad => 16,
            TowerType::Icbm => 17,
            TowerType::Lab => 18,
            TowerType::Laser => 19,
            TowerType::Launcher => 20,
            TowerType::Lighthouse => 21,
            TowerType::Metropolis => 22,
            TowerType::Mine => 23,
            TowerType::Minefield => 24,
            TowerType::Projector => 25,
            TowerType::Quarry => 26,
            TowerType::Radar => 27,
            TowerType::Rampart => 28,
            TowerType::Reactor => 29,
            TowerType::Refinery => 30,
            TowerType::Rig => 31,
            TowerType::Rocket => 32,
            TowerType::Runway => 33,
            TowerType::Satellite => 34,
            TowerType::Silo => 35,
            TowerType::Town => 36,
            TowerType::Village => 37,
        }
    }

    /// Decodes a persisted discriminant; `None` for values out of range.
    pub fn from_u8(v: u8) -> (r: Option<TowerType>)
        ensures
            v < TOWER_TYPE_COUNT ==> (r matches Some(t) && t.spec_index() == v as int),
            v >= TOWER_TYPE_COUNT ==> r is None,
    {
        let all = Self::iter();
        if (v as usize) < all.len() {
            let t = all[v as usize];
            proof {
                Self::lemma_index_injective(t);
            }
            Some(t)
        } else {
            None
        }
    }

    /// All tower kinds, in declaration order.
    pub open spec fn spec_iter() -> Seq<TowerType> {
        seq![
            TowerType::Airfield,
            TowerType::Armory,
            TowerType::Artillery,
            TowerType::Barracks,
            TowerType::Buoy,
            TowerType::Bunker,
            TowerType::Capitol,
            TowerType::Centrifuge,
            TowerType::City,
            TowerType::Cliff,
            TowerType::Dock,
            TowerType::Drydock,
            TowerType::Ews,
            TowerType::Factory,
            TowerType::Generator,
            TowerType::Headquarters,
            TowerType::Helipad,
            TowerType::Icbm,
            TowerType::Lab,
            TowerType::Laser,
            TowerType::Launcher,
            TowerType::Lighthouse,
            TowerType::Metropolis,
            TowerType::Mine,
            TowerType::Minefield,
            TowerType::Projector,
            TowerType::Quarry,
            TowerType::Radar,
            TowerType::Rampart,
            TowerType::Reactor,
            TowerType::Refinery,
            TowerType::Rig,
            TowerType::Rocket,
            TowerType::Runway,
            TowerType::Satellite,
            TowerType::Silo,
            TowerType::Town,
            TowerType::Village,
        ]
    }

    /// Every tower kind occurs in `spec_iter`, at its own index.
    pub proof fn lemma_index_injective(t: TowerType)
        ensures
            0 <= t.spec_index() < TOWER_TYPE_COUNT,
            Self::spec_iter().len() == TOWER_TYPE_COUNT,
            Self::spec_iter()[t.spec_index()] == t,
    {
    }

    /// All tower kinds, in declaration order.
    pub fn iter() -> (r: Vec<TowerType>)
        ensures
            r@ == Self::spec_iter(),
    {
        let r = vec![
            TowerType::Airfield,
            TowerType::Armory,
            TowerType::Artillery,
            TowerType::Barracks,
            TowerType::Buoy,
            TowerType::Bunker,
            TowerType::Capitol,
            TowerType::Centrifuge,
            TowerType::City,
            TowerType::Cliff,
            TowerType::Dock,
            TowerType::Drydock,
            TowerType::Ews,
            TowerType::Factory,
            TowerType::Generator,
            TowerType::Headquarters,
            TowerType::Helipad,
            TowerType::Icbm,
            TowerType::Lab,
            TowerType::Laser,
            TowerType::Launcher,
            TowerType::Lighthouse,
            TowerType::Metropolis,
            TowerType::Mine,
            TowerType::Minefield,
            TowerType::Projector,
            TowerType::Quarry,
            TowerType::Radar,
            TowerType::Rampart,
            TowerType::Reactor,
            TowerType::Refinery,
            TowerType::Rig,
            TowerType::Rocket,
            TowerType::Runway,
            TowerType::Satellite,
            TowerType::Silo,
            TowerType::Town,
            TowerType::Village,
        ];
        proof {
            assert(r@ =~= Self::spec_iter());
        }
        r
    }

    /// True for the 2x2-footprint towers.
    pub open spec fn spec_is_large(self) -> bool {
        match self {
            TowerType::Capitol | TowerType::Icbm | TowerType::Laser | TowerType::Metropolis => true,
            _ => false,
        }
    }

    /// True for the 2x2-footprint towers.
    pub fn is_large(self) -> (r: bool)
        ensures
            r == self.spec_is_large(),
    {
        matches!(
            self,
            TowerType::Capitol | TowerType::Icbm | TowerType::Laser | TowerType::Metropolis
        )
    }

    /// True for towers that stand on water.
    pub open spec fn spec_is_aquatic(self) -> bool {
        match self {
            TowerType::Lighthouse
            | TowerType::Buoy
            | TowerType::Rig
            | TowerType::Dock
            | TowerType::Drydock => true,
            _ => false,
        }
    }

    /// True for towers that stand on water.
    pub fn is_aquatic(self) -> (r: bool)
        ensures
            r == self.spec_is_aquatic(),
    {
        matches!(
            self,
            TowerType::Lighthouse
                | TowerType::Buoy
                | TowerType::Rig
                | TowerType::Dock
                | TowerType::Drydock
        )
    }

    /// Footprint edge length in cells.
    pub fn scale(self) -> (r: u8)
        ensures
            r == 2 <==> self.spec_is_large(),
            r == 1 <==> !self.spec_is_large(),
    {
        if self.is_large() {
            2
        } else {
            1
        }
    }

    /// True for towers that may host a newly spawned player.
    pub open spec fn spec_is_spawnable(self) -> bool {
        match self {
            TowerType::Airfield
            | TowerType::Armory
            | TowerType::Barracks
            | TowerType::Helipad
            | TowerType::Runway => true,
            _ => false,
        }
    }

    /// True for towers that may host a newly spawned player.
    pub fn is_spawnable(self) -> (r: bool)
        ensures
            r == self.spec_is_spawnable(),
    {
        matches!(
            self,
            TowerType::Airfield
                | TowerType::Armory
                | TowerType::Barracks
                | TowerType::Helipad
                | TowerType::Runway
        )
    }

    /// The single tower type from which this one may be upgraded.
    pub open spec fn spec_downgrade(self) -> Option<TowerType> {
        match self {
            TowerType::Airfield => Some(TowerType::Runway),
            TowerType::Armory => Some(TowerType::Barracks),
            TowerType::Artillery => Some(TowerType::Bunker),
            TowerType::Bunker => Some(TowerType::Mine),
            TowerType::Capitol => Some(TowerType::Headquarters),
            TowerType::Centrifuge => Some(TowerType::Factory),
            TowerType::City => Some(TowerType::Town),
            TowerType::Dock => Some(TowerType::Lighthouse),
            TowerType::Drydock => Some(TowerType::Dock),
            TowerType::Ews => Some(TowerType::Radar),
            TowerType::Headquarters => Some(TowerType::Village),
            TowerType::Helipad => Some(TowerType::Airfield),
            TowerType::Icbm => Some(TowerType::Silo),
            TowerType::Lab => Some(TowerType::Rig),
            TowerType::Laser => Some(TowerType::Reactor),
            TowerType::Launcher => Some(TowerType::Radar),
            TowerType::Metropolis => Some(TowerType::City),
            TowerType::Minefield => Some(TowerType::Buoy),
            TowerType::Projector => Some(TowerType::Centrifuge),
            TowerType::Quarry => Some(TowerType::Cliff),
            TowerType::Rampart => Some(TowerType::Cliff),
            TowerType::Reactor => Some(TowerType::Generator),
            TowerType::Refinery => Some(TowerType::Factory),
            TowerType::Rig => Some(TowerType::Buoy),
            TowerType::Rocket => Some(TowerType::Launcher),
            TowerType::Satellite => Some(TowerType::Ews),
            TowerType::Silo => Some(TowerType::Quarry),
            TowerType::Town => Some(TowerType::Village),
            _ => None,
        }
    }

    /// The single tower type from which this one may be upgraded.
    pub fn downgrade(self) -> (r: Option<TowerType>)
        ensures
            r == self.spec_downgrade(),
    {
        match self {
            TowerType::Airfield => Some(TowerType::Runway),
            TowerType::Armory => Some(TowerType::Barracks),
            TowerType::Artillery => Some(TowerType::Bunker),
            TowerType::Bunker => Some(TowerType::Mine),
            TowerType::Capitol => Some(TowerType::Headquarters),
            TowerType::Centrifuge => Some(TowerType::Factory),
            TowerType::City => Some(TowerType::Town),
            TowerType::Dock => Some(TowerType::Lighthouse),
            TowerType::Drydock => Some(TowerType::Dock),
            TowerType::Ews => Some(TowerType::Radar),
            TowerType::Headquarters => Some(TowerType::Village),
            TowerType::Helipad => Some(TowerType::Airfield),
            TowerType::Icbm => Some(TowerType::Silo),
            TowerType::Lab => Some(TowerType::Rig),
            TowerType::Laser => Some(TowerType::Reactor),
            TowerType::Launcher => Some(TowerType::Radar),
            TowerType::Metropolis => Some(TowerType::City),
            TowerType::Minefield => Some(TowerType::Buoy),
            TowerType::Projector => Some(TowerType::Centrifuge),
            TowerType::Quarry => Some(TowerType::Cliff),
            TowerType::Rampart => Some(TowerType::Cliff),
            TowerType::Reactor => Some(TowerType::Generator),
            TowerType::Refinery => Some(TowerType::Factory),
            TowerType::Rig => Some(TowerType::Buoy),
            TowerType::Rocket => Some(TowerType::Launcher),
            TowerType::Satellite => Some(TowerType::Ews),
            TowerType::Silo => Some(TowerType::Quarry),
            TowerType::Town => Some(TowerType::Village),
            _ => None,
        }
    }

    /// How many towers of type `p` a player must own to upgrade into `self`.
    pub open spec fn spec_prerequisite(self, p: TowerType) -> u8 {
        match self {
            TowerType::Airfield => match p {
                TowerType::Factory => 2,
                TowerType::Radar => 1,
                _ => 0,
            },
            TowerType::Armory => match p {
                TowerType::Factory => 1,
                TowerType::Mine => 1,
                _ => 0,
            },
            TowerType::Artillery => match p {
                TowerType::Refinery => 2,
                TowerType::Radar => 3,
                _ => 0,
            },
            TowerType::Bunker => match p {
                TowerType::Headquarters => 1,
                TowerType::Ews => 1,
                _ => 0,
            },
            TowerType::Capitol => match p {
                TowerType::Bunker => 10,
                TowerType::Headquarters => 15,
                TowerType::Projector => 20,
                _ => 0,
            },
            TowerType::Centrifuge => match p {
                TowerType::Mine => 3,
                _ => 0,
            },
            TowerType::City => match p {
                TowerType::Quarry => 2,
                TowerType::Reactor => 1,
                TowerType::Town => 3,
                _ => 0,
            },
            TowerType::Dock => match p {
                TowerType::Factory => 3,
                _ => 0,
            },
            TowerType::Drydock => match p {
                TowerType::Quarry => 1,
                TowerType::Refinery => 2,
                _ => 0,
            },
            TowerType::Ews => match p {
                TowerType::Generator => 2,
                _ => 0,
            },
            TowerType::Headquarters => match p {
                TowerType::Radar => 1,
                _ => 0,
            },
            TowerType::Helipad => match p {
                TowerType::Armory => 2,
                TowerType::Factory => 3,
                _ => 0,
            },
            TowerType::Icbm => match p {
                TowerType::City => 25,
                TowerType::Silo => 15,
                TowerType::Rocket => 15,
                _ => 0,
            },
            TowerType::Lab => match p {
                TowerType::Reactor => 1,
                TowerType::Radar => 1,
                TowerType::Drydock => 1,
                _ => 0,
            },
            TowerType::Laser => match p {
                TowerType::City => 25,
                TowerType::Reactor => 15,
                TowerType::Satellite => 15,
                _ => 0,
            },
            TowerType::Launcher => match p {
                TowerType::Runway => 3,
                _ => 0,
            },
            TowerType::Metropolis => match p {
                TowerType::City => 10,
                TowerType::Town => 15,
                TowerType::Village => 20,
                _ => 0,
            },
            TowerType::Minefield => match p {
                TowerType::Factory => 1,
                _ => 0,
            },
            TowerType::Projector => match p {
                TowerType::Rampart => 2,
                TowerType::Reactor => 2,
                _ => 0,
            },
            TowerType::Quarry => match p {
                TowerType::Village => 1,
                _ => 0,
            },
            TowerType::Rampart => match p {
                TowerType::Barracks => 2,
                _ => 0,
            },
            TowerType::Reactor => match p {
                TowerType::Centrifuge => 1,
                _ => 0,
            },
            TowerType::Refinery => match p {
                TowerType::Generator => 3,
                TowerType::Cliff => 1,
                _ => 0,
            },
            TowerType::Rig => match p {
                TowerType::Refinery => 1,
                TowerType::Dock => 2,
                _ => 0,
            },
            TowerType::Rocket => match p {
                TowerType::Refinery => 1,
                _ => 0,
            },
            TowerType::Satellite => match p {
                TowerType::Rocket => 2,
                TowerType::Generator => 5,
                _ => 0,
            },
            TowerType::Silo => match p {
                TowerType::Centrifuge => 2,
                TowerType::Rocket => 1,
                _ => 0,
            },
            TowerType::Town => match p {
                TowerType::Generator => 1,
                TowerType::Village => 3,
                _ => 0,
            },
            _ => 0,
        }
    }

    /// How many towers of type `p` a player must own to upgrade into `self`.
    pub fn prerequisite(self, p: TowerType) -> (r: u8)
        ensures
            r == self.spec_prerequisite(p),
    {
        match self {
            TowerType::Airfield => match p {
                TowerType::Factory => 2,
                TowerType::Radar => 1,
                _ => 0,
            },
            TowerType::Armory => match p {
                TowerType::Factory => 1,
                TowerType::Mine => 1,
                _ => 0,
            },
            TowerType::Artillery => match p {
                TowerType::Refinery => 2,
                TowerType::Radar => 3,
                _ => 0,
            },
            TowerType::Bunker => match p {
                TowerType::Headquarters => 1,
                TowerType::Ews => 1,
                _ => 0,
            },
            TowerType::Capitol => match p {
                TowerType::Bunker => 10,
                TowerType::Headquarters => 15,
                TowerType::Projector => 20,
                _ => 0,
            },
            TowerType::Centrifuge => match p {
                TowerType::Mine => 3,
                _ => 0,
            },
            TowerType::City => match p {
                TowerType::Quarry => 2,
                TowerType::Reactor => 1,
                TowerType::Town => 3,
                _ => 0,
            },
            TowerType::Dock => match p {
                TowerType::Factory => 3,
                _ => 0,
            },
            TowerType::Drydock => match p {
                TowerType::Quarry => 1,
                TowerType::Refinery => 2,
                _ => 0,
            },
            TowerType::Ews => match p {
                TowerType::Generator => 2,
                _ => 0,
            },
            TowerType::Headquarters => match p {
                TowerType::Radar => 1,
                _ => 0,
            },
            TowerType::Helipad => match p {
                TowerType::Armory => 2,
                TowerType::Factory => 3,
                _ => 0,
            },
            TowerType::Icbm => match p {
                TowerType::City => 25,
                TowerType::Silo => 15,
                TowerType::Rocket => 15,
                _ => 0,
            },
            TowerType::Lab => match p {
                TowerType::Reactor => 1,
                TowerType::Radar => 1,
                TowerType::Drydock => 1,
                _ => 0,
            },
            TowerType::Laser => match p {
                TowerType::City => 25,
                TowerType::Reactor => 15,
                TowerType::Satellite => 15,
                _ => 0,
            },
            TowerType::Launcher => match p {
                TowerType::Runway => 3,
                _ => 0,
            },
            TowerType::Metropolis => match p {
                TowerType::City => 10,
                TowerType::Town => 15,
                TowerType::Village => 20,
                _ => 0,
            },
            TowerType::Minefield => match p {
                TowerType::Factory => 1,
                _ => 0,
            },
            TowerType::Projector => match p {
                TowerType::Rampart => 2,
                TowerType::Reactor => 2,
                _ => 0,
            },
            TowerType::Quarry => match p {
                TowerType::Village => 1,
                _ => 0,
            },
            TowerType::Rampart => match p {
                TowerType::Barracks => 2,
                _ => 0,
            },
            TowerType::Reactor => match p {
                TowerType::Centrifuge => 1,
                _ => 0,
            },
            TowerType::Refinery => match p {
                TowerType::Generator => 3,
                TowerType::Cliff => 1,
                _ => 0,
            },
            TowerType::Rig => match p {
                TowerType::Refinery => 1,
                TowerType::Dock => 2,
                _ => 0,
            },
            TowerType::Rocket => match p {
                TowerType::Refinery => 1,
                _ => 0,
            },
            TowerType::Satellite => match p {
                TowerType::Rocket => 2,
                TowerType::Generator => 5,
                _ => 0,
            },
            TowerType::Silo => match p {
                TowerType::Centrifuge => 2,
                TowerType::Rocket => 1,
                _ => 0,
            },
            TowerType::Town => match p {
                TowerType::Generator => 1,
                TowerType::Village => 3,
                _ => 0,
            },
            _ => 0,
        }
    }

    /// Ticks a tower stays inactive after upgrading into `self`.
    pub open spec fn spec_upgrade_delay(self) -> u8 {
        match self {
            TowerType::Minefield => 15,
            TowerType::Airfield
            | TowerType::Headquarters
            | TowerType::Helipad
            | TowerType::Projector
            | TowerType::Quarry
            | TowerType::Rampart
            | TowerType::Refinery
            | TowerType::Rocket
            | TowerType::Town => 20,
            TowerType::Armory => 25,
            TowerType::Bunker
            | TowerType::Centrifuge
            | TowerType::City
            | TowerType::Dock
            | TowerType::Ews
            | TowerType::Launcher
            | TowerType::Rig => 30,
            TowerType::Artillery
            | TowerType::Capitol
            | TowerType::Icbm
            | TowerType::Laser
            | TowerType::Metropolis
            | TowerType::Reactor
            | TowerType::Satellite
            | TowerType::Silo => 40,
            TowerType::Drydock | TowerType::Lab => 60,
            _ => 10,
        }
    }

    /// Ticks a tower stays inactive after upgrading into `self`.
    pub fn upgrade_delay(self) -> (r: u8)
        ensures
            r == self.spec_upgrade_delay(),
            r > 0,
    {
        match self {
            TowerType::Minefield => 15,
            TowerType::Airfield
            | TowerType::Headquarters
            | TowerType::Helipad
            | TowerType::Projector
            | TowerType::Quarry
            | TowerType::Rampart
            | TowerType::Refinery
            | TowerType::Rocket
            | TowerType::Town => 20,
            TowerType::Armory => 25,
            TowerType::Bunker
            | TowerType::Centrifuge
            | TowerType::City
            | TowerType::Dock
            | TowerType::Ews
            | TowerType::Launcher
            | TowerType::Rig => 30,
            TowerType::Artillery
            | TowerType::Capitol
            | TowerType::Icbm
            | TowerType::Laser
            | TowerType::Metropolis
            | TowerType::Reactor
            | TowerType::Satellite
            | TowerType::Silo => 40,
            TowerType::Drydock | TowerType::Lab => 60,
            _ => 10,
        }
    }

    /// Max count of `unit` a tower of this type can hold, before the ruler
    /// shield boost.
    pub open spec fn spec_capacity(self, unit: Unit) -> u8 {
        match unit {
            Unit::Soldier => match self {
                TowerType::Barracks => 12,
                TowerType::Capitol | TowerType::Headquarters | TowerType::Rampart => 8,
                TowerType::Bunker | TowerType::City | TowerType::Metropolis | TowerType::Quarry => 6,
                TowerType::Artillery
                | TowerType::Buoy
                | TowerType::Dock
                | TowerType::Drydock
                | TowerType::Icbm
                | TowerType::Lab
                | TowerType::Laser
                | TowerType::Launcher
                | TowerType::Lighthouse
                | TowerType::Minefield
                | TowerType::Rig => 0,
                _ => 4,
            },
            Unit::Tank => match self {
                TowerType::Airfield => 3,
                TowerType::Armory => 5,
                TowerType::Silo | TowerType::Town => 1,
                TowerType::Artillery
                | TowerType::Buoy
                | TowerType::Bunker
                | TowerType::Dock
                | TowerType::Drydock
                | TowerType::Icbm
                | TowerType::Lab
                | TowerType::Laser
                | TowerType::Launcher
                | TowerType::Lighthouse
                | TowerType::Minefield
                | TowerType::Rampart
                | TowerType::Rig
                | TowerType::Village => 0,
                _ => 2,
            },
            Unit::Fighter => match self {
                TowerType::Airfield | TowerType::Runway => 4,
                TowerType::City | TowerType::Metropolis => 2,
                TowerType::Town => 1,
                _ => 0,
            },
            Unit::Bomber => match self {
                TowerType::Airfield => 4,
                _ => 0,
            },
            Unit::Chopper => match self {
                TowerType::Helipad => 3,
                TowerType::Rig => 2,
                _ => 0,
            },
            Unit::Frigate => match self {
                TowerType::Dock => 4,
                TowerType::Drydock => 3,
                TowerType::Lighthouse | TowerType::Rig => 1,
                _ => 0,
            },
            Unit::Submarine => match self {
                TowerType::Drydock => 3,
                _ => 0,
            },
            Unit::Shell => match self {
                TowerType::Artillery => 3,
                _ => 0,
            },
            Unit::Emp => match self {
                TowerType::Launcher => 1,
                _ => 0,
            },
            Unit::Nuke => match self {
                TowerType::Silo => 1,
                _ => 0,
            },
            Unit::Shield => match self {
                TowerType::Buoy => 1,
                TowerType::Refinery | TowerType::Runway | TowerType::Village => 5,
                TowerType::Armory
                | TowerType::Centrifuge
                | TowerType::City
                | TowerType::Dock
                | TowerType::Drydock
                | TowerType::Ews
                | TowerType::Helipad
                | TowerType::Launcher
                | TowerType::Mine
                | TowerType::Rocket
                | TowerType::Satellite => 15,
                TowerType::Artillery
                | TowerType::Metropolis
                | TowerType::Minefield
                | TowerType::Silo => 20,
                TowerType::Cliff | TowerType::Lab => 30,
                TowerType::Bunker
                | TowerType::Headquarters
                | TowerType::Icbm
                | TowerType::Laser => 40,
                TowerType::Rampart => 45,
                TowerType::Capitol => 60,
                _ => 10,
            },
            Unit::Ruler => 1,
        }
    }

    /// Max count of `unit` a tower of this type can hold, before the ruler
    /// shield boost.
    pub fn capacity(self, unit: Unit) -> (r: u8)
        ensures
            r == self.spec_capacity(unit),
    {
        match unit {
            Unit::Soldier => match self {
                TowerType::Barracks => 12,
                TowerType::Capitol | TowerType::Headquarters | TowerType::Rampart => 8,
                TowerType::Bunker | TowerType::City | TowerType::Metropolis | TowerType::Quarry => 6,
                TowerType::Artillery
                | TowerType::Buoy
                | TowerType::Dock
                | TowerType::Drydock
                | TowerType::Icbm
                | TowerType::Lab
                | TowerType::Laser
                | TowerType::Launcher
                | TowerType::Lighthouse
                | TowerType::Minefield
                | TowerType::Rig => 0,
                _ => 4,
            },
            Unit::Tank => match self {
                TowerType::Airfield => 3,
                TowerType::Armory => 5,
                TowerType::Silo | TowerType::Town => 1,
                TowerType::Artillery
                | TowerType::Buoy
                | TowerType::Bunker
                | TowerType::Dock
                | TowerType::Drydock
                | TowerType::Icbm
                | TowerType::Lab
                | TowerType::Laser
                | TowerType::Launcher
                | TowerType::Lighthouse
                | TowerType::Minefield
                | TowerType::Rampart
                | TowerType::Rig
                | TowerType::Village => 0,
                _ => 2,
            },
            Unit::Fighter => match self {
                TowerType::Airfield | TowerType::Runway => 4,
                TowerType::City | TowerType::Metropolis => 2,
                TowerType::Town => 1,
                _ => 0,
            },
            Unit::Bomber => match self {
                TowerType::Airfield => 4,
                _ => 0,
            },
            Unit::Chopper => match self {
                TowerType::Helipad => 3,
                TowerType::Rig => 2,
                _ => 0,
            },
            Unit::Frigate => match self {
                TowerType::Dock => 4,
                TowerType::Drydock => 3,
                TowerType::Lighthouse | TowerType::Rig => 1,
                _ => 0,
            },
            Unit::Submarine => match self {
                TowerType::Drydock => 3,
                _ => 0,
            },
            Unit::Shell => match self {
                TowerType::Artillery => 3,
                _ => 0,
            },
            Unit::Emp => match self {
                TowerType::Launcher => 1,
                _ => 0,
            },
            Unit::Nuke => match self {
                TowerType::Silo => 1,
                _ => 0,
            },
            Unit::Shield => match self {
                TowerType::Buoy => 1,
                TowerType::Refinery | TowerType::Runway | TowerType::Village => 5,
                TowerType::Armory
                | TowerType::Centrifuge
                | TowerType::City
                | TowerType::Dock
                | TowerType::Drydock
                | TowerType::Ews
                | TowerType::Helipad
                | TowerType::Launcher
                | TowerType::Mine
                | TowerType::Rocket
                | TowerType::Satellite => 15,
                TowerType::Artillery
                | TowerType::Metropolis
                | TowerType::Minefield
                | TowerType::Silo => 20,
                TowerType::Cliff | TowerType::Lab => 30,
                TowerType::Bunker
                | TowerType::Headquarters
                | TowerType::Icbm
                | TowerType::Laser => 40,
                TowerType::Rampart => 45,
                TowerType::Capitol => 60,
                _ => 10,
            },
            Unit::Ruler => 1,
        }
    }

    /// Period in ticks between autogenerated units of the given kind, if the
    /// tower type generates them. Every tower generates `Shield`.
    pub open spec fn spec_unit_generation(self, unit: Unit) -> Option<Ticks> {
        match unit {
            Unit::Shield => match self {
                TowerType::Capitol
                | TowerType::Icbm
                | TowerType::Laser
                | TowerType::Minefield
                | TowerType::Projector
                | TowerType::Rampart => Some(3u16),
                _ => Some(5u16),
            },
            Unit::Soldier => match self {
                TowerType::Barracks => Some(6u16),
                _ => None,
            },
            Unit::Tank => match self {
                TowerType::Armory => Some(15u16),
                _ => None,
            },
            Unit::Fighter => match self {
                TowerType::Runway => Some(30u16),
                _ => None,
            },
            Unit::Bomber => match self {
                TowerType::Airfield => Some(30u16),
                _ => None,
            },
            Unit::Chopper => match self {
                TowerType::Helipad => Some(30u16),
                _ => None,
            },
            Unit::Frigate => match self {
                TowerType::Dock => Some(20u16),
                _ => None,
            },
            Unit::Submarine => match self {
                TowerType::Drydock => Some(30u16),
                _ => None,
            },
            Unit::Shell => match self {
                TowerType::Artillery => Some(15u16),
                _ => None,
            },
            Unit::Emp => match self {
                TowerType::Launcher => Some(80u16),
                _ => None,
            },
            Unit::Nuke => match self {
                TowerType::Silo => Some(120u16),
                _ => None,
            },
            Unit::Ruler => None,
        }
    }

    /// Period in ticks between autogenerated units of the given kind.
    pub fn unit_generation(self, unit: Unit) -> (r: Option<Ticks>)
        ensures
            r == self.spec_unit_generation(unit),
    {
        match unit {
            Unit::Shield => match self {
                TowerType::Capitol
                | TowerType::Icbm
                | TowerType::Laser
                | TowerType::Minefield
                | TowerType::Projector
                | TowerType::Rampart => Some(3u16),
                _ => Some(5u16),
            },
            Unit::Soldier => match self {
                TowerType::Barracks => Some(6u16),
                _ => None,
            },
            Unit::Tank => match self {
                TowerType::Armory => Some(15u16),
                _ => None,
            },
            Unit::Fighter => match self {
                TowerType::Runway => Some(30u16),
                _ => None,
            },
            Unit::Bomber => match self {
                TowerType::Airfield => Some(30u16),
                _ => None,
            },
            Unit::Chopper => match self {
                TowerType::Helipad => Some(30u16),
                _ => None,
            },
            Unit::Frigate => match self {
                TowerType::Dock => Some(20u16),
                _ => None,
            },
            Unit::Submarine => match self {
                TowerType::Drydock => Some(30u16),
                _ => None,
            },
            Unit::Shell => match self {
                TowerType::Artillery => Some(15u16),
                _ => None,
            },
            Unit::Emp => match self {
                TowerType::Launcher => Some(80u16),
                _ => None,
            },
            Unit::Nuke => match self {
                TowerType::Silo => Some(120u16),
                _ => None,
            },
            Unit::Ruler => None,
        }
    }

    /// Sensor radius of the tower type, in world units.
    pub open spec fn spec_sensor_radius(self) -> u16 {
        match self {
            TowerType::Lighthouse => 8,
            TowerType::Radar => 16,
            TowerType::Ews => 20,
            TowerType::Satellite => 30,
            TowerType::Icbm | TowerType::Laser => 48,
            _ => 12,
        }
    }

    /// Sensor radius of the tower type, in world units.
    pub fn sensor_radius(self) -> (r: u16)
        ensures
            r == self.spec_sensor_radius(),
    {
        match self {
            TowerType::Lighthouse => 8,
            TowerType::Radar => 16,
            TowerType::Ews => 20,
            TowerType::Satellite => 30,
            TowerType::Icbm | TowerType::Laser => 48,
            _ => 12,
        }
    }

    /// Weight of the tower type in a player's score.
    pub open spec fn spec_score_weight(self) -> u8 {
        match self {
            TowerType::City => 5,
            TowerType::Metropolis => 12,
            TowerType::Refinery | TowerType::Rig => 3,
            TowerType::Factory
            | TowerType::Lab
            | TowerType::Mine
            | TowerType::Quarry
            | TowerType::Town => 2,
            _ => 1,
        }
    }

    /// Weight of the tower type in a player's score.
    pub fn score_weight(self) -> (r: u8)
        ensures
            r == self.spec_score_weight(),
    {
        match self {
            TowerType::City => 5,
            TowerType::Metropolis => 12,
            TowerType::Refinery | TowerType::Rig => 3,
            TowerType::Factory
            | TowerType::Lab
            | TowerType::Mine
            | TowerType::Quarry
            | TowerType::Town => 2,
            _ => 1,
        }
    }
}

} // verus!

verus! {

/// Scale between cell coordinates and world units; tower centers are this
/// many world units apart.
pub const CONVERSION: u16 = 5;

impl TowerType {
    /// Zero-indexed height of the tower type in the upgrade lattice. Every
    /// tower has a higher level than its downgrade and its prerequisites.
    pub open spec fn spec_level(self) -> int {
        match self {
            TowerType::Barracks
            | TowerType::Buoy
            | TowerType::Cliff
            | TowerType::Factory
            | TowerType::Generator
            | TowerType::Lighthouse
            | TowerType::Mine
            | TowerType::Radar
            | TowerType::Runway
            | TowerType::Village => 0,
            TowerType::Airfield
            | TowerType::Armory
            | TowerType::Centrifuge
            | TowerType::Dock
            | TowerType::Ews
            | TowerType::Headquarters
            | TowerType::Launcher
            | TowerType::Minefield
            | TowerType::Quarry
            | TowerType::Rampart
            | TowerType::Refinery
            | TowerType::Town => 1,
            TowerType::Bunker
            | TowerType::Drydock
            | TowerType::Helipad
            | TowerType::Reactor
            | TowerType::Rig
            | TowerType::Rocket => 2,
            TowerType::Artillery
            | TowerType::City
            | TowerType::Lab
            | TowerType::Projector
            | TowerType::Satellite
            | TowerType::Silo => 3,
            TowerType::Capitol
            | TowerType::Icbm
            | TowerType::Laser
            | TowerType::Metropolis => 4,
        }
    }

    /// Zero-indexed level in the upgrade lattice.
    pub fn level(self) -> (r: usize)
        ensures
            r as int == self.spec_level(),
    {
        match self {
            TowerType::Barracks
            | TowerType::Buoy
            | TowerType::Cliff
            | TowerType::Factory
            | TowerType::Generator
            | TowerType::Lighthouse
            | TowerType::Mine
            | TowerType::Radar
            | TowerType::Runway
            | TowerType::Village => 0,
            TowerType::Airfield
            | TowerType::Armory
            | TowerType::Centrifuge
            | TowerType::Dock
            | TowerType::Ews
            | TowerType::Headquarters
            | TowerType::Launcher
            | TowerType::Minefield
            | TowerType::Quarry
            | TowerType::Rampart
            | TowerType::Refinery
            | TowerType::Town => 1,
            TowerType::Bunker
            | TowerType::Drydock
            | TowerType::Helipad
            | TowerType::Reactor
            | TowerType::Rig
            | TowerType::Rocket => 2,
            TowerType::Artillery
            | TowerType::City
            | TowerType::Lab
            | TowerType::Projector
            | TowerType::Satellite
            | TowerType::Silo => 3,
            TowerType::Capitol
            | TowerType::Icbm
            | TowerType::Laser
            | TowerType::Metropolis => 4,
        }
    }

    /// Every tower type sits strictly above its downgrade and above every
    /// prerequisite in the upgrade lattice.
    pub proof fn lemma_level_dominates(t: TowerType, p: TowerType)
        requires
            t.spec_downgrade() == Some(p) || t.spec_prerequisite(p) > 0,
        ensures
            t.spec_level() > p.spec_level(),
    {
    }

    /// The lowest-level tower type reachable from `self` by iterated
    /// downgrades.
    pub open spec fn spec_basis(self) -> TowerType
        decreases self.spec_level(),
    {
        match self.spec_downgrade() {
            None => self,
            Some(d) => {
                if d.spec_level() < self.spec_level() {
                    d.spec_basis()
                } else {
                    d
                }
            }
        }
    }

    /// The basis of a tower type has no downgrade: it is reached from any
    /// type by finitely many downgrade steps.
    pub proof fn lemma_basis_is_base(t: TowerType)
        ensures
            t.spec_basis().spec_downgrade() is None,
        decreases t.spec_level(),
    {
        match t.spec_downgrade() {
            None => {}
            Some(d) => {
                Self::lemma_level_dominates(t, d);
                Self::lemma_basis_is_base(d);
            }
        }
    }

    /// The tower type after `n` downgrade steps; steps past a base stay
    /// at the base.
    pub open spec fn spec_downgrade_iter(self, n: nat) -> TowerType
        decreases n,
    {
        if n == 0 {
            self
        } else {
            match self.spec_downgrade_iter((n - 1) as nat).spec_downgrade() {
                Some(d) => d,
                None => self.spec_downgrade_iter((n - 1) as nat),
            }
        }
    }

    /// Iterating from a type is iterating from its downgrade, one step
    /// behind.
    proof fn lemma_downgrade_iter_shift(t: TowerType, d: TowerType, k: nat)
        requires
            t.spec_downgrade() == Some(d),
        ensures
            t.spec_downgrade_iter((k + 1) as nat) == d.spec_downgrade_iter(k),
        decreases k,
    {
        reveal_with_fuel(TowerType::spec_downgrade_iter, 3);
        if k > 0 {
            Self::lemma_downgrade_iter_shift(t, d, (k - 1) as nat);
        }
    }

    /// The downgrade chain is finite and acyclic: every tower type reaches
    /// its basis within as many downgrade steps as its level.
    pub proof fn lemma_basis_reached(t: TowerType)
        ensures
            exists|n: nat| n <= t.spec_level() && #[trigger] t.spec_downgrade_iter(n)
                == t.spec_basis(),
        decreases t.spec_level(),
    {
        match t.spec_downgrade() {
            None => {
                assert(t.spec_downgrade_iter(0) == t.spec_basis());
            }
            Some(d) => {
                Self::lemma_level_dominates(t, d);
                Self::lemma_basis_reached(d);
                let m = choose|m: nat|
                    m <= d.spec_level() && #[trigger] d.spec_downgrade_iter(m) == d.spec_basis();
                Self::lemma_downgrade_iter_shift(t, d, m);
                assert(t.spec_downgrade_iter((m + 1) as nat) == t.spec_basis());
            }
        }
    }

    /// Which lowest-level tower type can upgrade to this tower type?
    pub fn basis(self) -> (r: TowerType)
        ensures
            r == self.spec_basis(),
            r.spec_downgrade() is None,
    {
        proof {
            Self::lemma_basis_is_base(self);
        }
        let mut t = self;
        loop
            invariant
                t.spec_basis() == self.spec_basis(),
            ensures
                t == self.spec_basis(),
            decreases t.spec_level(),
        {
            match t.downgrade() {
                None => {
                    break;
                }
                Some(d) => {
                    proof {
                        Self::lemma_level_dominates(t, d);
                    }
                    t = d;
                }
            }
        }
        t
    }

    /// `self` can be upgraded into `other` in one step.
    pub open spec fn spec_can_upgrade_to(self, other: TowerType) -> bool {
        other.spec_downgrade() == Some(self)
    }

    /// `self` can be upgraded into `other` in one step.
    pub fn can_upgrade_to(self, other: TowerType) -> (r: bool)
        ensures
            r == self.spec_can_upgrade_to(other),
    {
        match other.downgrade() {
            Some(d) => d == self,
            None => false,
        }
    }

    /// The direct upgrade targets of `self`, in declaration order.
    pub fn upgrades(self) -> (r: Vec<TowerType>)
        ensures
            forall|i: int|
                0 <= i < r@.len() ==> self.spec_can_upgrade_to(#[trigger] r@[i]),
            forall|other: TowerType|
                self.spec_can_upgrade_to(other) ==> r@.contains(other),
            forall|i: int, j: int| 0 <= i < j < r@.len() ==> r@[i] != r@[j],
            forall|i: int, j: int|
                0 <= i < j < r@.len() ==> r@[i].spec_index() < r@[j].spec_index(),
    {
        let all = Self::iter();
        let mut r: Vec<TowerType> = Vec::new();
        let mut k: usize = 0;
        while k < all.len()
            invariant
                all@ == Self::spec_iter(),
                k <= all@.len(),
                forall|i: int|
                    0 <= i < r@.len() ==> self.spec_can_upgrade_to(#[trigger] r@[i]),
                forall|j: int|
                    0 <= j < k ==> (self.spec_can_upgrade_to(#[trigger] all@[j]) ==> r@.contains(
                        all@[j],
                    )),
                forall|i: int| 0 <= i < r@.len() ==> (#[trigger] r@[i].spec_index()) < k,
                forall|i: int, j: int| 0 <= i < j < r@.len() ==> r@[i] != r@[j],
                forall|i: int, j: int|
                    0 <= i < j < r@.len() ==> r@[i].spec_index() < r@[j].spec_index(),
            decreases all@.len() - k,
        {
            let other = all[k];
            proof {
                Self::lemma_index_injective(other);
            }
            if self.can_upgrade_to(other) {
                r.push(other);
            }
            k = k + 1;
        }
        proof {
            assert forall|other: TowerType| self.spec_can_upgrade_to(other) implies r@.contains(
                other,
            ) by {
                Self::lemma_index_injective(other);
                assert(Self::spec_iter()[other.spec_index()] == other);
            }
        }
        r
    }

    /// The prerequisite pairs of `self`: each tower type the player must own
    /// with its required count, nonzero counts only.
    pub fn prerequisites(self) -> (r: Vec<(TowerType, u8)>)
        ensures
            forall|i: int|
                0 <= i < r@.len() ==> self.spec_prerequisite(#[trigger] r@[i].0) == r@[i].1
                    && r@[i].1 > 0,
            forall|p: TowerType|
                self.spec_prerequisite(p) > 0 ==> r@.contains((p, self.spec_prerequisite(p))),
            forall|i: int, j: int| 0 <= i < j < r@.len() ==> r@[i].0 != r@[j].0,
            forall|i: int, j: int|
                0 <= i < j < r@.len() ==> r@[i].0.spec_index() < r@[j].0.spec_index(),
    {
        let all = Self::iter();
        let mut r: Vec<(TowerType, u8)> = Vec::new();
        let mut k: usize = 0;
        while k < all.len()
            invariant
                all@ == Self::spec_iter(),
                k <= all@.len(),
                forall|i: int|
                    0 <= i < r@.len() ==> self.spec_prerequisite(#[trigger] r@[i].0) == r@[i].1
                        && r@[i].1 > 0,
                forall|j: int|
                    0 <= j < k ==> (self.spec_prerequisite(#[trigger] all@[j]) > 0 ==> r@.contains(
                        (all@[j], self.spec_prerequisite(all@[j])),
                    )),
                forall|i: int| 0 <= i < r@.len() ==> (#[trigger] r@[i].0.spec_index()) < k,
                forall|i: int, j: int| 0 <= i < j < r@.len() ==> r@[i].0 != r@[j].0,
                forall|i: int, j: int|
                    0 <= i < j < r@.len() ==> r@[i].0.spec_index() < r@[j].0.spec_index(),
            decreases all@.len() - k,
        {
            let p = all[k];
            proof {
                Self::lemma_index_injective(p);
            }
            let count = self.prerequisite(p);
            if count > 0 {
                r.push((p, count));
            }
            k = k + 1;
        }
        proof {
            assert forall|p: TowerType| self.spec_prerequisite(p) > 0 implies r@.contains(
                (p, self.spec_prerequisite(p)),
            ) by {
                Self::lemma_index_injective(p);
                assert(Self::spec_iter()[p.spec_index()] == p);
            }
        }
        r
    }
}

} // verus!

verus! {

/// The tower type generates units of kind `u` that could leave it in a
/// force.
pub open spec fn spec_generates_mobile(t: TowerType, u: Unit) -> bool {
    u.spec_is_mobile(Some(t)) && t.spec_unit_generation(u) is Some
}

impl TowerType {
    /// The tower type generates at least one unit kind that can be deployed
    /// in a force. Prefer [`crate::tower::Tower::generates_mobile_units`],
    /// which also accounts for an occupying ruler.
    pub fn generates_mobile_units(&self) -> (r: bool)
        ensures
            r == exists|u: Unit| spec_generates_mobile(*self, u),
    {
        let all = Unit::iter();
        let mut k: usize = 0;
        while k < all.len()
            invariant
                all@ == Unit::spec_iter(),
                k <= all@.len(),
                forall|j: int| 0 <= j < k ==> !spec_generates_mobile(*self, #[trigger] all@[j]),
            decreases all@.len() - k,
        {
            let u = all[k];
            if u.is_mobile(Some(*self)) && self.unit_generation(u).is_some() {
                proof {
                    assert(spec_generates_mobile(*self, u));
                }
                return true;
            }
            k = k + 1;
        }
        proof {
            assert forall|u: Unit| !spec_generates_mobile(*self, u) by {
                Unit::lemma_iter_complete(u);
                assert(Unit::spec_iter()[u.spec_index()] == u);
            }
        }
        false
    }

    /// Ranged reach of the tower type: the reach of the first generated
    /// unit kind that is fired rather than deployed, in unit iteration
    /// order.
    pub open spec fn spec_ranged_distance(self) -> Option<u32> {
        match self {
            TowerType::Artillery => Unit::Shell.spec_ranged_distance(),
            TowerType::Launcher => Unit::Emp.spec_ranged_distance(),
            TowerType::Silo => Unit::Nuke.spec_ranged_distance(),
            _ => None,
        }
    }

    /// Ranged reach of the tower type, if it generates a fired unit.
    pub fn ranged_distance(self) -> (r: Option<u32>)
        ensures
            r == self.spec_ranged_distance(),
            r matches Some(d) ==> exists|u: Unit|
                self.spec_unit_generation(u) is Some && (#[trigger] u.spec_ranged_distance())
                    == Some(d),
    {
        let all = Unit::iter();
        let mut k: usize = 0;
        while k < all.len()
            invariant
                all@ == Unit::spec_iter(),
                k <= all@.len(),
                forall|j: int|
                    0 <= j < k ==> !(self.spec_unit_generation(#[trigger] all@[j]) is Some
                        && all@[j].spec_ranged_distance() is Some),
            decreases all@.len() - k,
        {
            let u = all[k];
            if self.unit_generation(u).is_some() {
                if let Some(d) = u.ranged_distance() {
                    return Some(d);
                }
            }
            k = k + 1;
        }
        None
    }

    /// The ranged reach table agrees with the generation table: whenever a
    /// tower type generates a unit that is fired rather than deployed, its
    /// ranged reach is that unit's reach.
    pub proof fn lemma_ranged_distance_consistent(t: TowerType, u: Unit)
        requires
            t.spec_unit_generation(u) is Some,
            u.spec_ranged_distance() is Some,
        ensures
            t.spec_ranged_distance() == u.spec_ranged_distance(),
    {
    }

    /// Damage a tower of this type takes from a ranged attack of strength
    /// `damage`: bunkers and capitols keep two thirds off, headquarters and
    /// the endgame towers one third, labs one half. Never more than the
    /// incoming damage.
    pub open spec fn spec_ranged_damage(self, damage: u8) -> int {
        match self {
            TowerType::Bunker | TowerType::Capitol => damage as int / 3,
            TowerType::Headquarters | TowerType::Icbm | TowerType::Laser => damage as int * 2 / 3,
            TowerType::Lab => damage as int / 2,
            _ => damage as int,
        }
    }

    /// Damage a tower of this type takes from a ranged attack of strength
    /// `damage`.
    pub fn ranged_damage(self, damage: u8) -> (r: u8)
        requires
            damage < 128,
        ensures
            r as int == self.spec_ranged_damage(damage),
            r <= damage,
    {
        match self {
            TowerType::Bunker | TowerType::Capitol => damage / 3,
            TowerType::Headquarters | TowerType::Icbm | TowerType::Laser => damage * 2 / 3,
            TowerType::Lab => damage / 2,
            _ => damage,
        }
    }

    /// Damage a tower of this type takes from a ranged attack of unbounded
    /// strength.
    pub fn max_ranged_damage(self) -> (r: u8)
        ensures
            r as int == self.spec_ranged_damage(crate::unit::INFINITE_DAMAGE),
    {
        self.ranged_damage(crate::unit::INFINITE_DAMAGE)
    }

    /// Greatest sensor radius over all tower types, converted up to cells.
    pub fn max_range() -> (r: u16)
        ensures
            forall|t: TowerType| (#[trigger] t.spec_sensor_radius()) <= r * CONVERSION,
            exists|t: TowerType| (#[trigger] t.spec_sensor_radius()) > (r - 1) * CONVERSION,
    {
        let all = Self::iter();
        let mut mx: u16 = 0;
        let mut k: usize = 0;
        while k < all.len()
            invariant
                all@ == Self::spec_iter(),
                k <= all@.len(),
                forall|j: int| 0 <= j < k ==> (#[trigger] all@[j].spec_sensor_radius()) <= mx,
                k == 0 ==> mx == 0,
                k > 0 ==> exists|t: TowerType| (#[trigger] t.spec_sensor_radius()) == mx,
                mx <= 48,
            decreases all@.len() - k,
        {
            let t = all[k];
            let s = t.sensor_radius();
            if s > mx {
                mx = s;
                proof {
                    assert(t.spec_sensor_radius() == mx);
                }
            }
            k = k + 1;
        }
        proof {
            assert forall|t: TowerType| (#[trigger] t.spec_sensor_radius()) <= mx by {
                Self::lemma_index_injective(t);
                assert(Self::spec_iter()[t.spec_index()] == t);
            }
        }
        (mx + CONVERSION - 1) / CONVERSION
    }

    /// Deterministic selection of the tower type of an unmaterialized cell:
    /// the bases matching the cell's biome, indexed by the cell's hash. The
    /// candidate set is never empty, so the selection is total.
    pub open spec fn spec_generate(hash: u8, aquatic: bool) -> TowerType {
        if aquatic {
            if hash % 2 == 0 {
                TowerType::Buoy
            } else {
                TowerType::Lighthouse
            }
        } else {
            if hash % 8 == 0 {
                TowerType::Barracks
            } else if hash % 8 == 1 {
                TowerType::Cliff
            } else if hash % 8 == 2 {
                TowerType::Factory
            } else if hash % 8 == 3 {
                TowerType::Generator
            } else if hash % 8 == 4 {
                TowerType::Mine
            } else if hash % 8 == 5 {
                TowerType::Radar
            } else if hash % 8 == 6 {
                TowerType::Runway
            } else {
                TowerType::Village
            }
        }
    }

    /// Deterministic selection of the tower type of an unmaterialized cell.
    pub fn generate(hash: u8, aquatic: bool) -> (r: TowerType)
        ensures
            r == Self::spec_generate(hash, aquatic),
            r.spec_downgrade() is None,
            r.spec_is_aquatic() == aquatic,
    {
        let candidates: Vec<TowerType> = if aquatic {
            vec![TowerType::Buoy, TowerType::Lighthouse]
        } else {
            vec![
                TowerType::Barracks,
                TowerType::Cliff,
                TowerType::Factory,
                TowerType::Generator,
                TowerType::Mine,
                TowerType::Radar,
                TowerType::Runway,
                TowerType::Village,
            ]
        };
        let index = (hash as usize) % candidates.len();
        candidates[index]
    }
}

/// Per-tower-type table of counts: how many towers of each type a player
/// owns.
#[derive(Clone, PartialEq, Eq, Debug)]
pub struct TowerArray {
    pub counts: Vec<u8>,
}

impl TowerArray {
    /// The table holds one entry per tower type.
    pub open spec fn wf(self) -> bool {
        self.counts@.len() == TOWER_TYPE_COUNT
    }

    /// Count recorded for the given tower type.
    pub open spec fn spec_get(self, t: TowerType) -> u8 {
        self.counts@[t.spec_index()]
    }

    /// The all-zero table.
    pub fn new() -> (r: TowerArray)
        ensures
            r.wf(),
            forall|t: TowerType| r.spec_get(t) == 0,
    {
        let mut counts: Vec<u8> = Vec::new();
        let mut k: usize = 0;
        while k < TOWER_TYPE_COUNT
            invariant
                k <= TOWER_TYPE_COUNT,
                counts@.len() == k,
                forall|j: int| 0 <= j < k ==> counts@[j] == 0,
            decreases TOWER_TYPE_COUNT - k,
        {
            counts.push(0);
            k = k + 1;
        }
        let r = TowerArray { counts };
        proof {
            assert forall|t: TowerType| r.spec_get(t) == 0 by {
                TowerType::lemma_index_injective(t);
            }
        }
        r
    }

    /// Count recorded for the given tower type.
    pub fn get(&self, t: TowerType) -> (r: u8)
        requires
            self.wf(),
        ensures
            r == self.spec_get(t),
    {
        proof {
            TowerType::lemma_index_injective(t);
        }
        self.counts[t.to_u8() as usize]
    }

    /// Replaces the count recorded for the given tower type.
    pub fn set(&mut self, t: TowerType, v: u8)
        requires
            old(self).wf(),
        ensures
            final(self).wf(),
            final(self).spec_get(t) == v,
            forall|o: TowerType|
                o != t ==> final(self).spec_get(o) == old(self).spec_get(o),
    {
        proof {
            TowerType::lemma_index_injective(t);
        }
        let i = t.to_u8() as usize;
        self.counts.set(i, v);
        proof {
            assert forall|o: TowerType| o != t implies final(self).spec_get(o) == old(
                self,
            ).spec_get(o) by {
                TowerType::lemma_index_injective(o);
                TowerType::lemma_index_injective(t);
            }
        }
    }
}

impl TowerType {
    /// The player's tower counts meet every prerequisite of `self`.
    pub fn has_prerequisites(self, tower_counts: &TowerArray) -> (r: bool)
        requires
            tower_counts.wf(),
        ensures
            r == forall|p: TowerType|
                (#[trigger] tower_counts.spec_get(p)) >= self.spec_prerequisite(p),
    {
        let all = Self::iter();
        let mut k: usize = 0;
        while k < all.len()
            invariant
                all@ == Self::spec_iter(),
                k <= all@.len(),
                tower_counts.wf(),
                forall|j: int|
                    0 <= j < k ==> (#[trigger] tower_counts.spec_get(all@[j]))
                        >= self.spec_prerequisite(all@[j]),
            decreases all@.len() - k,
        {
            let p = all[k];
            if tower_counts.get(p) < self.prerequisite(p) {
                return false;
            }
            k = k + 1;
        }
        proof {
            assert forall|p: TowerType|
                (#[trigger] tower_counts.spec_get(p)) >= self.spec_prerequisite(p) by {
                Self::lemma_index_injective(p);
                assert(Self::spec_iter()[p.spec_index()] == p);
            }
        }
        true
    }
}

} // verus!

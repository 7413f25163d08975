use tower_world::tower_type::{TowerArray, TowerType, CONVERSION};
use tower_world::unit::Unit;
use tower_world::units::Units;
use tower_world::tower::Tower;

#[test]
fn tower_type_max_edge_distance() {
    assert_eq!(
        TowerType::Barracks.ranged_distance(),
        Unit::Soldier.ranged_distance()
    );
    assert_eq!(
        TowerType::Artillery.ranged_distance(),
        Unit::Shell.ranged_distance()
    );
    assert_eq!(
        TowerType::Silo.ranged_distance(),
        Unit::Nuke.ranged_distance()
    );
    assert_eq!(
        TowerType::Town.ranged_distance(),
        Unit::Soldier.ranged_distance()
    );
}

#[test]
fn level_dominates_lattice() {
    for t in TowerType::iter() {
        if let Some(d) = t.downgrade() {
            assert!(t.level() > d.level());
        }
        for (p, count) in t.prerequisites() {
            assert!(count > 0);
            assert!(t.level() > p.level());
        }
    }
}

#[test]
fn basis_is_base() {
    for t in TowerType::iter() {
        assert!(t.basis().downgrade().is_none());
    }
    assert_eq!(TowerType::Metropolis.basis(), TowerType::Village);
    assert_eq!(TowerType::Icbm.basis(), TowerType::Cliff);
    assert_eq!(TowerType::Barracks.basis(), TowerType::Barracks);
}

#[test]
fn ranged_damage_never_exceeds_damage() {
    for t in TowerType::iter() {
        for d in 0u8..=127 {
            assert!(t.ranged_damage(d) <= d);
        }
    }
    assert_eq!(TowerType::Bunker.ranged_damage(90), 30);
    assert_eq!(TowerType::Icbm.ranged_damage(90), 60);
    assert_eq!(TowerType::Lab.ranged_damage(90), 45);
    assert_eq!(TowerType::Village.ranged_damage(90), 90);
    assert_eq!(TowerType::Capitol.max_ranged_damage(), 33);
}

#[test]
fn generate_is_total() {
    for hash in 0u8..=255 {
        let land = TowerType::generate(hash, false);
        assert!(land.downgrade().is_none());
        assert!(!land.is_aquatic());
        let water = TowerType::generate(hash, true);
        assert!(water.downgrade().is_none());
        assert!(water.is_aquatic());
    }
}

#[test]
fn max_range_covers_all_sensors() {
    let r = TowerType::max_range();
    assert_eq!(r, 10);
    for t in TowerType::iter() {
        assert!(t.sensor_radius() <= r * CONVERSION);
    }
}

#[test]
fn discriminants_round_trip() {
    for t in TowerType::iter() {
        let v = t.to_u8();
        assert_eq!(TowerType::from_u8(v), Some(t));
    }
    assert_eq!(TowerType::from_u8(200), None);
    assert_eq!(TowerType::Airfield.to_u8(), 0);
    assert_eq!(TowerType::Village.to_u8(), 37);
}

#[test]
fn scale_and_footprint() {
    assert_eq!(TowerType::Capitol.scale(), 2);
    assert!(TowerType::Metropolis.is_large());
    assert_eq!(TowerType::Barracks.scale(), 1);
    assert!(TowerType::Dock.is_aquatic());
    assert!(!TowerType::Mine.is_aquatic());
}

#[test]
fn upgrades_invert_downgrade() {
    for t in TowerType::iter() {
        for u in t.upgrades() {
            assert_eq!(u.downgrade(), Some(t));
        }
    }
    let barracks_ups = TowerType::Barracks.upgrades();
    assert!(barracks_ups.contains(&TowerType::Armory));
    let cliff_ups = TowerType::Cliff.upgrades();
    assert!(cliff_ups.contains(&TowerType::Quarry));
    assert!(cliff_ups.contains(&TowerType::Rampart));
}

#[test]
fn has_prerequisites_checks_counts() {
    let mut counts = TowerArray::new();
    counts.set(TowerType::Factory, 1);
    counts.set(TowerType::Mine, 1);
    assert!(TowerType::Armory.has_prerequisites(&counts));
    counts.set(TowerType::Factory, 0);
    assert!(!TowerType::Armory.has_prerequisites(&counts));
}

#[test]
fn units_bag_operations() {
    let mut units = Units::default();
    assert!(units.is_empty());
    units.add(Unit::Soldier, 3);
    units.add(Unit::Shield, 2);
    assert_eq!(units.available(Unit::Soldier), 3);
    assert!(units.contains(Unit::Shield));
    assert!(!units.has_ruler());
    let removed = units.subtract(Unit::Soldier, 5);
    assert_eq!(removed, 3);
    assert_eq!(units.available(Unit::Soldier), 0);
    assert!(!units.is_empty());
    let pairs = units.iter();
    assert_eq!(pairs, vec![(Unit::Shield, 2)]);
}

#[test]
fn ruler_shield_boost_raises_capacity() {
    let mut units = Units::default();
    assert_eq!(units.capacity(Unit::Shield, Some(TowerType::Barracks)), 10);
    units.add(Unit::Ruler, 1);
    assert_eq!(units.capacity(Unit::Shield, Some(TowerType::Barracks)), 20);
    assert_eq!(units.capacity(Unit::Ruler, Some(TowerType::Barracks)), 1);
}

#[test]
fn reconcile_clamps_and_strips() {
    let mut units = Units::default();
    units.add(Unit::Soldier, 200);
    units.add(Unit::Ruler, 1);
    units.add(Unit::Shield, 50);
    units.reconcile(TowerType::Barracks, true);
    assert_eq!(units.available(Unit::Soldier), 12);
    assert_eq!(units.available(Unit::Shield), 20);
    let mut dead = Units::default();
    dead.add(Unit::Ruler, 1);
    dead.add(Unit::Shield, 5);
    dead.add(Unit::Tank, 1);
    dead.reconcile(TowerType::Barracks, false);
    assert_eq!(dead.available(Unit::Ruler), 0);
    assert_eq!(dead.available(Unit::Shield), 0);
    assert_eq!(dead.available(Unit::Tank), 1);
}

#[test]
fn ruler_suppresses_generation() {
    let mut tower = Tower::with_type(TowerType::Barracks);
    assert_eq!(tower.unit_generation(Unit::Soldier), Some(6));
    assert!(tower.generates_mobile_units());
    tower.units.add(Unit::Ruler, 1);
    assert_eq!(tower.unit_generation(Unit::Soldier), None);
    assert_eq!(tower.unit_generation(Unit::Shield), Some(5));
    assert!(!tower.generates_mobile_units());
}

#[test]
fn force_units_and_take() {
    let mut tower = Tower::with_type(TowerType::Barracks);
    tower.units.add(Unit::Soldier, 4);
    tower.units.add(Unit::Shield, 7);
    let force = tower.force_units();
    assert_eq!(force.available(Unit::Soldier), 4);
    assert_eq!(force.available(Unit::Shield), 0);
    let taken = tower.take_force_units();
    assert_eq!(taken.available(Unit::Soldier), 4);
    assert_eq!(tower.units.available(Unit::Soldier), 0);
    assert_eq!(tower.units.available(Unit::Shield), 7);
}

#[test]
fn diminish_bleeds_dead_towers() {
    let mut tower = Tower::with_type(TowerType::Barracks);
    tower.units.add(Unit::Soldier, 2);
    tower.units.add(Unit::Tank, 1);
    let removed = tower.diminish_units_if_dead_or_overflow();
    assert_eq!(removed, 2);
    assert_eq!(tower.units.available(Unit::Soldier), 1);
    assert_eq!(tower.units.available(Unit::Tank), 0);
}

#[test]
fn set_player_id_clears_supply_line() {
    let mut tower = Tower::with_type(TowerType::Barracks);
    let p = tower_world::player::PlayerId { value: 3 };
    tower.set_player_id(Some(p));
    assert_eq!(tower.player_id, Some(p));
    tower.supply_line = Some(tower_world::path::Path::new(vec![
        tower_world::id::TowerId::new(1, 1),
    ]));
    tower.set_player_id(None);
    assert_eq!(tower.player_id, None);
    assert!(tower.supply_line.is_none());
}

#[test]
fn max_edge_distance_is_least_reach() {
    let mut units = Units::default();
    assert_eq!(units.max_edge_distance(), None);
    units.add(Unit::Soldier, 1);
    assert_eq!(units.max_edge_distance(), Some(15));
    units.add(Unit::Shell, 1);
    assert_eq!(units.max_edge_distance(), Some(15));
    let mut ranged = Units::default();
    ranged.add(Unit::Nuke, 1);
    assert_eq!(ranged.max_edge_distance(), Some(60));
}

use tower_world::id::TowerId;
use tower_world::message::{ChunkInput, ChunkMaintenance, Dispatch, PlayerInput, PlayerMaintenance};
use tower_world::path::{Path, TowerError};
use tower_world::player::{Player, PlayerId};
use tower_world::service::TowerService;
use tower_world::tower::Tower;
use tower_world::tower_type::TowerType;
use tower_world::unit::Unit;

fn human(value: u32) -> PlayerId {
    PlayerId { value }
}

fn owned_tower(kind: TowerType, owner: PlayerId) -> Tower {
    let mut tower = Tower::with_type(kind);
    tower.player_id = Some(owner);
    tower
}

fn alive_player() -> Player {
    let mut player = Player::new();
    player.alive = true;
    player
}

#[test]
fn upgrade_path_succeeds() {
    let mut svc = TowerService::new(1);
    let p = human(7);
    let mut player = alive_player();
    player.tower_counts.set(TowerType::Factory, 1);
    player.tower_counts.set(TowerType::Mine, 1);
    player.tower_counts.set(TowerType::Barracks, 25);
    svc.set_player(p, player);
    let id = TowerId::new(300, 300);
    svc.world.insert(id, owned_tower(TowerType::Barracks, p));

    let r = svc.upgrade_tower(p, id, TowerType::Armory);
    assert_eq!(r, Ok(()));
    match svc.outbox.last().unwrap() {
        Dispatch::ChunkInput(_, ChunkInput::UpgradeTower { tower_type, .. }) => {
            assert_eq!(*tower_type, TowerType::Armory);
        }
        other => panic!("unexpected dispatch {:?}", other),
    }
    assert!(svc.player(p).unwrap().alerts.upgraded_any_tower);
    let tower = svc.world.get(id).unwrap();
    assert_eq!(tower.tower_type, TowerType::Armory);
    assert!(tower.delay.is_some());
}

#[test]
fn upgrade_missing_prerequisite() {
    let mut svc = TowerService::new(1);
    let p = human(7);
    let mut player = alive_player();
    player.tower_counts.set(TowerType::Barracks, 25);
    player.tower_counts.set(TowerType::Mine, 1);
    svc.set_player(p, player);
    let id = TowerId::new(300, 300);
    svc.world.insert(id, owned_tower(TowerType::Barracks, p));

    let r = svc.upgrade_tower(p, id, TowerType::Armory);
    assert_eq!(r, Err(TowerError::MissingPrerequisite));
    assert_eq!(r.unwrap_err().message(), "missing prerequisite");
    assert!(svc.outbox.is_empty());
    assert!(!svc.player(p).unwrap().alerts.upgraded_any_tower);
    assert_eq!(svc.world.get(id).unwrap().tower_type, TowerType::Barracks);
}

#[test]
fn downgrade_needs_no_prerequisites() {
    let mut svc = TowerService::new(1);
    let p = human(7);
    svc.set_player(p, alive_player());
    let id = TowerId::new(300, 300);
    svc.world.insert(id, owned_tower(TowerType::Armory, p));

    let r = svc.upgrade_tower(p, id, TowerType::Barracks);
    assert_eq!(r, Ok(()));
    match svc.outbox.last().unwrap() {
        Dispatch::ChunkInput(_, ChunkInput::UpgradeTower { tower_type, .. }) => {
            assert_eq!(*tower_type, TowerType::Barracks);
        }
        other => panic!("unexpected dispatch {:?}", other),
    }
    assert!(!svc.player(p).unwrap().alerts.upgraded_any_tower);
}

#[test]
fn upgrade_error_variants() {
    let mut svc = TowerService::new(1);
    let p = human(7);
    svc.set_player(p, alive_player());
    let id = TowerId::new(300, 300);
    assert_eq!(
        svc.upgrade_tower(p, id, TowerType::Armory),
        Err(TowerError::NoTower)
    );
    svc.world.insert(id, Tower::with_type(TowerType::Barracks));
    assert_eq!(
        svc.upgrade_tower(p, id, TowerType::Armory),
        Err(TowerError::NotOwned)
    );
    let mut pending = owned_tower(TowerType::Barracks, p);
    pending.delay = Some(10);
    svc.world.insert(id, pending);
    assert_eq!(
        svc.upgrade_tower(p, id, TowerType::Armory),
        Err(TowerError::UpgradePending)
    );
    let mut active = owned_tower(TowerType::Barracks, p);
    active.delay = None;
    svc.world.insert(id, active);
    assert_eq!(
        svc.upgrade_tower(p, id, TowerType::Silo),
        Err(TowerError::InvalidUpgradePath)
    );
}

#[test]
fn mutual_alliance() {
    let mut svc = TowerService::new(1);
    let p1 = human(1);
    let p2 = human(2);
    let player1 = alive_player();
    let mut player2 = alive_player();
    player2.allies.push(p1);
    svc.set_player(p1, player1);
    svc.set_player(p2, player2);
    svc.activate(p1);
    svc.activate(p2);

    let r = svc.alliance(p1, p2, false);
    assert_eq!(r, Ok(()));
    assert_eq!(
        svc.outbox,
        vec![
            Dispatch::PlayerInput(p1, PlayerInput::NewAlliance(p2)),
            Dispatch::PlayerInput(p2, PlayerInput::NewAlliance(p1)),
            Dispatch::PlayerInput(p1, PlayerInput::AddAlly(p2)),
        ]
    );

    let before = svc.outbox.len();
    let r = svc.alliance(p2, p1, false);
    assert_eq!(r, Ok(()));
    assert_eq!(
        svc.outbox[before..].to_vec(),
        vec![Dispatch::PlayerInput(p2, PlayerInput::AddAlly(p1))]
    );
}

#[test]
fn alliance_error_variants() {
    let mut svc = TowerService::new(1);
    let p1 = human(1);
    let p2 = human(2);
    assert_eq!(
        svc.alliance(p1, p2, false),
        Err(TowerError::NonexistentPlayer)
    );
    svc.set_player(p1, alive_player());
    assert_eq!(svc.alliance(p1, p2, false), Err(TowerError::InactiveAlly));
    assert_eq!(
        svc.alliance(p1, p2, false).unwrap_err().message(),
        "alliance with inactive player"
    );
}

#[test]
fn deploy_force_drains_mobile_units() {
    let mut svc = TowerService::new(1);
    let p = human(7);
    svc.set_player(p, alive_player());
    let id = TowerId::new(300, 300);
    let next = TowerId::new(301, 300);
    let mut source = owned_tower(TowerType::Barracks, p);
    source.units.add(Unit::Soldier, 3);
    source.units.add(Unit::Shield, 4);
    svc.world.insert(id, source);
    svc.world.insert(next, Tower::with_type(TowerType::Mine));

    let path = Path::new(vec![id, next]);
    let before = svc.outbox.len();
    let r = svc.deploy_force(p, id, &path);
    assert_eq!(r, Ok(()));
    assert_eq!(svc.outbox.len(), before + 1);
    match svc.outbox.last().unwrap() {
        Dispatch::ChunkInput(_, ChunkInput::DeployForce { path: sent, .. }) => {
            assert_eq!(sent.hops, vec![id, next]);
        }
        other => panic!("unexpected dispatch {:?}", other),
    }
    let tower = svc.world.get(id).unwrap();
    assert!(tower.force_units().is_empty());
    assert_eq!(tower.units.available(Unit::Shield), 4);
    assert!(svc.player(p).unwrap().alerts.deployed_any_force);
}

#[test]
fn deploy_force_error_variants() {
    let mut svc = TowerService::new(1);
    let p = human(7);
    svc.set_player(p, alive_player());
    let id = TowerId::new(300, 300);
    let path = Path::new(vec![id]);
    assert_eq!(svc.deploy_force(p, id, &path), Err(TowerError::NoTower));
    svc.world.insert(id, Tower::with_type(TowerType::Barracks));
    assert_eq!(svc.deploy_force(p, id, &path), Err(TowerError::NotOwned));
    svc.world.insert(id, owned_tower(TowerType::Barracks, p));
    assert_eq!(svc.deploy_force(p, id, &path), Err(TowerError::EmptyForce));
    let mut armed = owned_tower(TowerType::Barracks, p);
    armed.units.add(Unit::Soldier, 1);
    svc.world.insert(id, armed);
    let bad = Path::new(vec![TowerId::new(400, 400)]);
    assert_eq!(svc.deploy_force(p, id, &bad), Err(TowerError::InvalidPath));
    assert_eq!(
        svc.deploy_force(p, id, &bad).unwrap_err().message(),
        "invalid path"
    );
}

#[test]
fn supply_line_set_and_unset() {
    let mut svc = TowerService::new(1);
    let p = human(7);
    svc.set_player(p, alive_player());
    let id = TowerId::new(300, 300);
    let next = TowerId::new(300, 301);
    let mut source = owned_tower(TowerType::Barracks, p);
    source.units.add(Unit::Soldier, 1);
    svc.world.insert(id, source);
    svc.world.insert(next, Tower::with_type(TowerType::Mine));

    let path = Path::new(vec![id, next]);
    let r = svc.set_supply_line(p, id, Some(path.clone()));
    assert_eq!(r, Ok(()));
    assert!(svc.world.get(id).unwrap().supply_line.is_some());
    assert!(svc.player(p).unwrap().alerts.set_any_supply_line);

    // Repeating the current line clears it instead.
    let r = svc.set_supply_line(p, id, Some(path));
    assert_eq!(r, Ok(()));
    assert!(svc.world.get(id).unwrap().supply_line.is_none());
    assert!(svc.player(p).unwrap().alerts.unset_any_supply_line);
}

#[test]
fn supply_line_needs_generation() {
    let mut svc = TowerService::new(1);
    let p = human(7);
    svc.set_player(p, alive_player());
    let id = TowerId::new(300, 300);
    svc.world.insert(id, owned_tower(TowerType::Lab, p));
    let r = svc.set_supply_line(p, id, None);
    assert_eq!(r, Err(TowerError::InvalidSupplyLine));
    assert_eq!(r.unwrap_err().message(), "invalid supply line");
}

#[test]
fn spawn_determinism() {
    let mut svc = TowerService::new(42);
    let bot = PlayerId { value: 0x8000_0001 };
    svc.set_player(bot, Player::new());

    let r = svc.spawn_player(bot);
    assert_eq!(r, Ok(()));

    let generates = svc
        .outbox
        .iter()
        .filter(|d| matches!(d, Dispatch::ChunkInput(_, ChunkInput::Generate { tower_ids }) if !tower_ids.is_empty()))
        .count();
    assert!(generates > 0);
    let spawns: Vec<&Dispatch> = svc
        .outbox
        .iter()
        .filter(|d| matches!(d, Dispatch::ChunkInput(_, ChunkInput::Spawn { .. })))
        .collect();
    assert_eq!(spawns.len(), 1);
    let clears = svc
        .outbox
        .iter()
        .filter(|d| matches!(d, Dispatch::ChunkInput(_, ChunkInput::ClearZombies { .. })))
        .count();
    assert_eq!(clears, 8);
    assert!(svc.player(bot).unwrap().alive);

    // The same seed finds the same tower.
    let mut again = TowerService::new(42);
    again.set_player(bot, Player::new());
    assert_eq!(again.spawn_player(bot), Ok(()));
    let spawn_of = |s: &TowerService| {
        s.outbox
            .iter()
            .find_map(|d| match d {
                Dispatch::ChunkInput(c, ChunkInput::Spawn { tower_id, .. }) => {
                    Some((*c, *tower_id))
                }
                _ => None,
            })
            .unwrap()
    };
    assert_eq!(spawn_of(&svc), spawn_of(&again));
}

#[test]
fn spawn_error_variants() {
    let mut svc = TowerService::new(1);
    let p = human(9);
    assert_eq!(svc.spawn_player(p), Err(TowerError::PlayerNotInGame));
    svc.set_player(p, alive_player());
    assert_eq!(svc.spawn_player(p), Err(TowerError::AlreadyAlive));
    assert_eq!(
        svc.spawn_player(p).unwrap_err().message(),
        "already alive"
    );
}

#[test]
fn kill_player_releases_towers() {
    let mut svc = TowerService::new(1);
    let p = human(7);
    let ally = human(8);
    let mut player = alive_player();
    player.allies.push(ally);
    player.towers.push(TowerId::new(300, 300));
    svc.set_player(p, player);
    let mut friend = alive_player();
    friend.allies.push(p);
    svc.set_player(ally, friend);
    let id = TowerId::new(300, 300);
    let mut tower = owned_tower(TowerType::Barracks, p);
    tower.units.add(Unit::Ruler, 1);
    svc.world.insert(id, tower);

    svc.kill_player(p);
    let dead = svc.player(p).unwrap();
    assert!(!dead.alive);
    assert!(dead.towers.is_empty());
    assert!(svc.world.get(id).unwrap().player_id.is_none());
    assert!(!svc.player(ally).unwrap().allies.contains(&p));
    assert_eq!(
        svc.outbox.last().unwrap(),
        &Dispatch::PlayerMaintenance(p, PlayerMaintenance::Died)
    );
    assert!(svc.outbox.iter().any(|d| matches!(
        d,
        Dispatch::PlayerMaintenance(a, PlayerMaintenance::RemoveDeadAlly(_)) if *a == ally
    )));
}

#[test]
fn shrink_destroys_only_unprotected_towers() {
    let mut svc = TowerService::new(1);
    let p = human(7);
    svc.set_player(p, alive_player());
    let kept = TowerId::new(700, 700);
    svc.world.insert(kept, owned_tower(TowerType::Barracks, p));
    let doomed = TowerId::new(100, 100);
    svc.world.insert(doomed, Tower::with_type(TowerType::Mine));

    svc.shrink();
    assert!(svc.world.get(kept).is_some());
    assert!(svc.world.get(doomed).is_none());
}

#[test]
fn error_messages_are_fixed() {
    assert_eq!(TowerError::NoTower.message(), "no tower");
    assert_eq!(
        TowerError::NotOwned.message(),
        "source not under player's control"
    );
    assert_eq!(TowerError::EmptyForce.message(), "empty force");
    assert_eq!(TowerError::InvalidPath.message(), "invalid path");
    assert_eq!(
        TowerError::InvalidSupplyLine.message(),
        "invalid supply line"
    );
    assert_eq!(
        TowerError::MissingPrerequisite.message(),
        "missing prerequisite"
    );
    assert_eq!(
        TowerError::InvalidUpgradePath.message(),
        "invalid upgrade path"
    );
    assert_eq!(
        TowerError::UpgradePending.message(),
        "upgrade already pending"
    );
    assert_eq!(
        TowerError::NonexistentPlayer.message(),
        "non-existent player"
    );
    assert_eq!(
        TowerError::InactiveAlly.message(),
        "alliance with inactive player"
    );
    assert_eq!(TowerError::AlreadyAlive.message(), "already alive");
    assert_eq!(TowerError::PlayerNotInGame.message(), "player not in game");
    assert_eq!(
        TowerError::NoSpawnableTower.message(),
        "couldn't find spawnable tower"
    );
}

#[test]
fn kill_player_broadcasts_each_chunk_once() {
    let mut svc = TowerService::new(1);
    let p = human(7);
    svc.set_player(p, alive_player());
    // Two towers in one chunk, a third in another.
    svc.world
        .insert(TowerId::new(10, 10), owned_tower(TowerType::Barracks, p));
    svc.world
        .insert(TowerId::new(11, 10), Tower::with_type(TowerType::Mine));
    svc.world
        .insert(TowerId::new(200, 10), Tower::with_type(TowerType::Radar));

    svc.kill_player(p);
    let kills: Vec<_> = svc
        .outbox
        .iter()
        .filter_map(|d| match d {
            Dispatch::ChunkMaintenance(c, ChunkMaintenance::KillPlayer { player_id }) => {
                assert_eq!(*player_id, p);
                Some(*c)
            }
            _ => None,
        })
        .collect();
    assert_eq!(kills.len(), 2);
    assert_ne!(kills[0], kills[1]);
}

#[test]
fn spawn_dispatch_order() {
    let mut svc = TowerService::new(42);
    let bot = PlayerId { value: 0x8000_0001 };
    svc.set_player(bot, Player::new());
    assert_eq!(svc.spawn_player(bot), Ok(()));

    let n = svc.outbox.len();
    // The tail is: Spawn, then one ClearZombies per neighbor of the spawn.
    for d in &svc.outbox[n - 8..] {
        assert!(matches!(
            d,
            Dispatch::ChunkInput(_, ChunkInput::ClearZombies { .. })
        ));
    }
    assert!(matches!(
        svc.outbox[n - 9],
        Dispatch::ChunkInput(_, ChunkInput::Spawn { .. })
    ));
    for d in &svc.outbox[..n - 9] {
        assert!(matches!(
            d,
            Dispatch::ChunkInput(_, ChunkInput::Generate { .. })
        ));
    }
}

#[test]
fn upgrades_and_prerequisites_keep_declaration_order() {
    for t in TowerType::iter() {
        let ups = t.upgrades();
        for w in ups.windows(2) {
            assert!(w[0].to_u8() < w[1].to_u8());
        }
        let pres = t.prerequisites();
        for w in pres.windows(2) {
            assert!(w[0].0.to_u8() < w[1].0.to_u8());
        }
    }
}

#[test]
fn shrink_keeps_protected_walks_and_bubbles() {
    let mut svc = TowerService::new(1);
    let p = human(7);
    svc.set_player(p, alive_player());
    // An owned tower with a garrisoned ruler protects its walk toward the
    // center and its spawn bubble.
    let fort = TowerId::new(700, 700);
    let mut tower = owned_tower(TowerType::Barracks, p);
    tower.units.add(Unit::Ruler, 1);
    svc.world.insert(fort, tower);
    // A destroyable tower on the fort's walk toward the center.
    let on_walk = TowerId::new(650, 650);
    svc.world.insert(on_walk, Tower::with_type(TowerType::Mine));
    // A destroyable tower inside the ruler's spawn bubble.
    let in_bubble = TowerId::new(700, 710);
    svc.world.insert(in_bubble, Tower::with_type(TowerType::Radar));
    // A destroyable tower protected by nothing.
    let stray = TowerId::new(100, 100);
    svc.world.insert(stray, Tower::with_type(TowerType::Cliff));

    svc.shrink();
    assert!(svc.world.get(fort).is_some());
    assert!(svc.world.get(on_walk).is_some());
    assert!(svc.world.get(in_bubble).is_some());
    assert!(svc.world.get(stray).is_none());
}

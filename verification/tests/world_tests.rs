use survival_core::geom::Vec2i;
use survival_core::player::PlayerUpgradeEvent;
use survival_core::store::{EntityData, EntityMove, Slot};
use survival_core::world::{GameState, TickInput, World};

fn quiet_tick(dt_ms: u64) -> TickInput {
    TickInput {
        dt_ms,
        moves: Vec::new(),
        contacts: Vec::new(),
        shot_targets: Vec::new(),
        move_x: 0,
        move_y: 0,
    }
}

fn player_health(w: &World) -> i32 {
    match w.store.slots[w.player.unwrap()] {
        Slot::Live(EntityData::PlayerData { player, .. }) => player.health,
        _ => panic!("no live player"),
    }
}

#[test]
fn fresh_world_sits_in_the_menu() {
    let w = World::new();
    assert_eq!(w.state, GameState::MainMenu);
    assert!(w.store.slots.is_empty());
    assert!(w.player.is_none());
}

#[test]
fn start_creates_exactly_one_player() {
    let mut w = World::new();
    w.start_game();
    assert_eq!(w.state, GameState::InGame);
    assert_eq!(w.store.slots.len(), 1);
    assert_eq!(w.player, Some(0));
    match w.store.slots[0] {
        Slot::Live(EntityData::PlayerData { pos, player, gun, wave, .. }) => {
            assert_eq!(pos, Vec2i { x: 0, y: 10 });
            assert_eq!(player.health, 100);
            assert_eq!(player.exp, 0);
            assert_eq!(gun.damage, 10);
            assert_eq!(wave.number, 4);
        },
        _ => panic!("no player spawned"),
    }
    // a second start command is not a transition
    w.start_game();
    assert_eq!(w.store.slots.len(), 1);
    assert_eq!(w.state, GameState::InGame);
}

#[test]
fn ticking_in_the_menu_changes_nothing() {
    let mut w = World::new();
    w.tick(&quiet_tick(5000));
    assert_eq!(w.state, GameState::MainMenu);
    assert!(w.store.slots.is_empty());
}

#[test]
fn wave_spawns_four_on_the_cardinal_circle() {
    let mut w = World::new();
    w.start_game();
    // the 3 s wave timer elapses within this tick
    w.tick(&quiet_tick(3000));
    assert_eq!(w.state, GameState::InGame);
    assert_eq!(w.store.slots.len(), 5);
    let expected = [
        Vec2i { x: 800, y: 10 },
        Vec2i { x: 0, y: 810 },
        Vec2i { x: -800, y: 10 },
        Vec2i { x: 0, y: -790 },
    ];
    for (k, want) in expected.iter().enumerate() {
        match w.store.slots[k + 1] {
            Slot::Live(EntityData::EnemyData { pos, enemy, attack, .. }) => {
                assert_eq!(pos, *want, "wave slot {}", k);
                assert_eq!(enemy.health, 20);
                assert_eq!(enemy.speed, 69);
                assert_eq!(enemy.distance_to_player, i64::MAX);
                assert_eq!(attack.timer.elapsed_ms, 0);
            },
            _ => panic!("wave slot {} is not a live enemy", k),
        }
    }
}

#[test]
fn wave_timer_not_elapsed_spawns_nothing() {
    let mut w = World::new();
    w.start_game();
    w.tick(&quiet_tick(2999));
    assert_eq!(w.store.slots.len(), 1);
}

#[test]
fn surrounded_player_dies_and_the_run_ends() {
    let mut w = World::new();
    w.start_game();
    w.tick(&quiet_tick(3000)); // four enemies appear on the circle
    assert_eq!(w.store.slots.len(), 5);

    // the physics service walks all four enemies onto the player; each
    // attack (damage 10, range 80, 1 s cooldown) lands every tick
    let close_in = || -> Vec<EntityMove> {
        (1..5).map(|h| EntityMove { handle: h, pos: Vec2i { x: 0, y: 10 } }).collect()
    };
    let mut healths = vec![player_health(&w)];
    for _ in 0..2 {
        let input = TickInput {
            dt_ms: 1000,
            moves: close_in(),
            contacts: Vec::new(),
            shot_targets: Vec::new(),
            move_x: 0,
            move_y: 0,
        };
        w.tick(&input);
        assert_eq!(w.state, GameState::InGame);
        healths.push(player_health(&w));
    }
    assert_eq!(healths, vec![100, 60, 20]);

    // the third volley takes health to -20: back to the menu, with zero
    // gameplay entities immediately after the transition
    let input = TickInput {
        dt_ms: 1000,
        moves: close_in(),
        contacts: Vec::new(),
        shot_targets: Vec::new(),
        move_x: 0,
        move_y: 0,
    };
    w.tick(&input);
    assert_eq!(w.state, GameState::MainMenu);
    assert!(w.player.is_none());
    assert!(w.store.present_handles().is_empty());
}

#[test]
fn health_never_rises_without_heal_intents() {
    let mut w = World::new();
    w.start_game();
    w.tick(&quiet_tick(3000));
    let mut last = player_health(&w);
    for k in 0..4u64 {
        let moves: Vec<EntityMove> =
            (1..5).map(|h| EntityMove { handle: h, pos: Vec2i { x: 60, y: 10 + k as i64 } }).collect();
        let input = TickInput {
            dt_ms: 500,
            moves,
            contacts: Vec::new(),
            shot_targets: Vec::new(),
            move_x: 1,
            move_y: -1,
        };
        w.tick(&input);
        if w.state != GameState::InGame {
            break;
        }
        let h = player_health(&w);
        assert!(h <= last);
        last = h;
    }
}

#[test]
fn orb_is_pulled_but_collected_only_inside_the_radius() {
    let mut w = World::new();
    w.start_game();
    // an external collaborator drops an orb 500 units out
    w.spawn_orb(Vec2i { x: 500, y: 10 }, 7);
    assert_eq!(w.store.slots.len(), 2);

    // pulled 400 units (1 s at pull speed 400), no collection at 500
    w.tick(&quiet_tick(1000));
    match w.store.slots[1] {
        Slot::Live(EntityData::OrbData { pos, .. }) => assert_eq!(pos, Vec2i { x: 100, y: 10 }),
        _ => panic!("orb gone too early"),
    }

    // snaps onto the player, but 100 units was still outside the
    // collection radius at the start of the tick
    w.tick(&quiet_tick(1000));
    match w.store.slots[1] {
        Slot::Live(EntityData::OrbData { pos, .. }) => assert_eq!(pos, Vec2i { x: 0, y: 10 }),
        _ => panic!("orb collected too early"),
    }

    // now at distance 0 < 10: collected, experience credited
    w.tick(&quiet_tick(1000));
    assert!(matches!(w.store.slots[1], Slot::Free));
    match w.store.slots[0] {
        Slot::Live(EntityData::PlayerData { player, .. }) => assert_eq!(player.exp, 7),
        _ => panic!("player slot changed kind"),
    }
}

#[test]
fn experience_saturates_instead_of_wrapping() {
    let mut w = World::new();
    w.start_game();
    // two orbs already inside the collection radius; the totals saturate
    w.spawn_orb(Vec2i { x: 0, y: 11 }, u32::MAX);
    w.spawn_orb(Vec2i { x: 0, y: 12 }, 5);
    w.tick(&quiet_tick(100));
    match w.store.slots[0] {
        Slot::Live(EntityData::PlayerData { player, .. }) => assert_eq!(player.exp, u32::MAX),
        _ => panic!("player slot changed kind"),
    }
    assert!(matches!(w.store.slots[1], Slot::Free));
    assert!(matches!(w.store.slots[2], Slot::Free));
}

#[test]
fn orb_outside_pull_radius_stays_put() {
    let mut w = World::new();
    w.start_game();
    w.spawn_orb(Vec2i { x: 700, y: 10 }, 3);
    w.tick(&quiet_tick(1000));
    match w.store.slots[1] {
        Slot::Live(EntityData::OrbData { pos, .. }) => assert_eq!(pos, Vec2i { x: 700, y: 10 }),
        _ => panic!("orb moved or vanished"),
    }
}

#[test]
fn level_up_pauses_without_teardown() {
    let mut w = World::new();
    w.start_game();
    w.tick(&quiet_tick(3000));
    assert_eq!(w.store.slots.len(), 5);
    w.open_level_up();
    assert_eq!(w.state, GameState::LevelUp);
    assert_eq!(w.store.slots.len(), 5); // nothing cleared

    // paused: a tick does not advance the simulation
    w.tick(&quiet_tick(3000));
    assert_eq!(w.store.slots.len(), 5);

    w.choose_upgrade(PlayerUpgradeEvent::AttackDamage);
    assert_eq!(w.state, GameState::InGame);
    match w.store.slots[0] {
        Slot::Live(EntityData::PlayerData { player, gun, .. }) => {
            assert_eq!(gun.damage, 15);
            assert_eq!(player.upgrade_level, 1);
        },
        _ => panic!("player slot changed kind"),
    }
}

#[test]
fn attack_speed_upgrade_shortens_the_cooldown() {
    let mut w = World::new();
    w.start_game();
    w.open_level_up();
    w.choose_upgrade(PlayerUpgradeEvent::AttackSpeed);
    match w.store.slots[0] {
        Slot::Live(EntityData::PlayerData { gun, .. }) => {
            assert_eq!(gun.attack.period_ms, 450);
            assert_eq!(gun.attack.elapsed_ms, 0);
        },
        _ => panic!("player slot changed kind"),
    }
}

#[test]
fn both_upgrade_options_are_offered() {
    assert_eq!(
        survival_core::world::upgrade_options(),
        vec![PlayerUpgradeEvent::AttackSpeed, PlayerUpgradeEvent::AttackDamage]
    );
}

#[test]
fn upgrade_command_outside_level_up_is_ignored() {
    let mut w = World::new();
    w.start_game();
    w.choose_upgrade(PlayerUpgradeEvent::AttackDamage);
    assert_eq!(w.state, GameState::InGame);
    match w.store.slots[0] {
        Slot::Live(EntityData::PlayerData { gun, .. }) => assert_eq!(gun.damage, 10),
        _ => panic!("player slot changed kind"),
    }
}

#[test]
fn gun_fires_through_a_whole_tick() {
    let mut w = World::new();
    w.start_game();
    w.tick(&quiet_tick(3000)); // enemies on the circle at radius 800
    // the spatial query reports the wave; the gun (range 900, cooldown
    // 500 ms) fires at the nearest
    let input = TickInput {
        dt_ms: 500,
        moves: Vec::new(),
        contacts: Vec::new(),
        shot_targets: vec![1, 2, 3, 4],
        move_x: 0,
        move_y: 0,
    };
    w.tick(&input);
    assert_eq!(w.store.slots.len(), 6);
    match w.store.slots[5] {
        Slot::Live(EntityData::BulletData { bullet, .. }) => {
            assert_eq!(bullet.damage, 10);
            assert_eq!(bullet.lifespan.remaining_ms, 1000);
        },
        _ => panic!("no bullet this tick"),
    }
}

#[test]
fn bullet_kills_enemy_through_a_whole_tick() {
    let mut w = World::new();
    w.start_game();
    w.tick(&quiet_tick(3000));
    w.tick(&TickInput {
        dt_ms: 500,
        moves: Vec::new(),
        contacts: Vec::new(),
        shot_targets: vec![1],
        move_x: 0,
        move_y: 0,
    });
    assert_eq!(w.store.slots.len(), 6); // bullet at handle 5

    // the physics service reports the bullet touching enemy 1, twice
    // (gun damage 10, enemy health 20)
    for _ in 0..2 {
        w.tick(&TickInput {
            dt_ms: 50,
            moves: Vec::new(),
            contacts: vec![survival_core::guns::ContactPair { a: 5, b: 1 }],
            shot_targets: Vec::new(),
            move_x: 0,
            move_y: 0,
        });
    }
    assert!(matches!(w.store.slots[1], Slot::Free)); // the enemy fell
    assert!(matches!(w.store.slots[2], Slot::Live(_))); // the others did not
}

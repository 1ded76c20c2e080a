use survival_core::damage::{
    damage_health, resolve_damage_pass, DamageBus, EnemyDamageEvent, PlayerDamageEvent,
};
use survival_core::enemy::{
    enemy_attack_step, enemy_despawn_pass, Enemy, EnemyAttack, EnemyWave, WaveConfigError,
};
use survival_core::geom::Vec2i;
use survival_core::guns::Gun;
use survival_core::player::Player;
use survival_core::store::{EntityData, EntityStore, Slot};
use survival_core::timer::Timer;

fn player_slot() -> Slot {
    Slot::Live(EntityData::PlayerData {
        pos: Vec2i { x: 0, y: 0 },
        vel: Vec2i { x: 0, y: 0 },
        player: Player { health: 100, speed: 120, exp: 0, upgrade_level: 0 },
        gun: Gun { damage: 10, range: 900, attack: Timer { elapsed_ms: 0, period_ms: 500 } },
        wave: EnemyWave { number: 4, radius: 800, timer: Timer { elapsed_ms: 0, period_ms: 3000 } },
    })
}

fn enemy_slot(health: i32) -> Slot {
    Slot::Live(EntityData::EnemyData {
        pos: Vec2i { x: 100, y: 0 },
        vel: Vec2i { x: 0, y: 0 },
        enemy: Enemy { health, speed: 69, distance_to_player: 100 },
        attack: EnemyAttack { damage: 10, range: 80, timer: Timer { elapsed_ms: 0, period_ms: 1000 } },
    })
}

#[test]
fn attack_out_of_range_forfeits_and_resets() {
    let enemy = Enemy { health: 20, speed: 69, distance_to_player: 70 };
    let mut attack =
        EnemyAttack { damage: 10, range: 69, timer: Timer { elapsed_ms: 0, period_ms: 1000 } };
    let r = enemy_attack_step(&enemy, &mut attack, 1000);
    assert_eq!(r, None);
    assert_eq!(attack.timer.elapsed_ms, 0); // the cycle was consumed anyway
    assert_eq!(attack.timer.period_ms, 1000);
}

#[test]
fn attack_in_range_emits_exactly_its_damage() {
    let enemy = Enemy { health: 20, speed: 69, distance_to_player: 50 };
    let mut attack =
        EnemyAttack { damage: 10, range: 69, timer: Timer { elapsed_ms: 0, period_ms: 1000 } };
    let r = enemy_attack_step(&enemy, &mut attack, 1000);
    assert_eq!(r, Some(PlayerDamageEvent { damage: 10 }));
}

#[test]
fn attack_cooldown_runs_even_out_of_range() {
    let enemy = Enemy { health: 20, speed: 69, distance_to_player: 500 };
    let mut attack =
        EnemyAttack { damage: 10, range: 80, timer: Timer { elapsed_ms: 0, period_ms: 1000 } };
    assert_eq!(enemy_attack_step(&enemy, &mut attack, 400), None);
    assert_eq!(attack.timer.elapsed_ms, 400);
    assert_eq!(enemy_attack_step(&enemy, &mut attack, 400), None);
    assert_eq!(attack.timer.elapsed_ms, 800);
}

#[test]
fn fresh_enemy_distance_unknown_never_attacks() {
    let enemy = Enemy::spawned();
    let mut attack = EnemyAttack::spawned();
    // the cooldown elapses, but the distance was never measured
    assert_eq!(enemy_attack_step(&enemy, &mut attack, 60_000), None);
}

#[test]
fn damage_health_saturates_at_bottom() {
    assert_eq!(damage_health(10, 3), 7);
    assert_eq!(damage_health(0, 5), -5);
    assert_eq!(damage_health(i32::MIN + 1, 5), i32::MIN);
}

#[test]
fn bus_keeps_emission_order() {
    let mut bus = DamageBus::new();
    bus.emit_enemy(EnemyDamageEvent { target: 2, damage: 5 });
    bus.emit_enemy(EnemyDamageEvent { target: 1, damage: 7 });
    bus.emit_player(PlayerDamageEvent { damage: 3 });
    assert_eq!(bus.enemy_events.len(), 2);
    assert_eq!(bus.enemy_events[0], EnemyDamageEvent { target: 2, damage: 5 });
    assert_eq!(bus.enemy_events[1], EnemyDamageEvent { target: 1, damage: 7 });
    assert_eq!(bus.player_events.len(), 1);
    bus.clear();
    assert!(bus.enemy_events.is_empty() && bus.player_events.is_empty());
}

#[test]
fn drain_empties_the_bus_in_order() {
    let mut bus = DamageBus::new();
    bus.emit_player(PlayerDamageEvent { damage: 3 });
    bus.emit_player(PlayerDamageEvent { damage: 4 });
    bus.emit_enemy(EnemyDamageEvent { target: 1, damage: 5 });
    let (pe, ee) = bus.drain();
    assert_eq!(pe, vec![PlayerDamageEvent { damage: 3 }, PlayerDamageEvent { damage: 4 }]);
    assert_eq!(ee, vec![EnemyDamageEvent { target: 1, damage: 5 }]);
    assert!(bus.player_events.is_empty() && bus.enemy_events.is_empty());
    let (pe2, ee2) = bus.drain();
    assert!(pe2.is_empty() && ee2.is_empty());
}

#[test]
fn resolver_sums_all_intents_before_death() {
    let mut store = EntityStore { slots: vec![player_slot(), enemy_slot(20), enemy_slot(20)] };
    let player_events = vec![PlayerDamageEvent { damage: 10 }, PlayerDamageEvent { damage: 15 }];
    let enemy_events = vec![
        EnemyDamageEvent { target: 1, damage: 5 },
        EnemyDamageEvent { target: 2, damage: 12 },
        EnemyDamageEvent { target: 2, damage: 9 },
    ];
    resolve_damage_pass(&mut store, 0, &player_events, &enemy_events);
    match store.slots[0] {
        Slot::Live(EntityData::PlayerData { player, .. }) => assert_eq!(player.health, 75),
        _ => panic!("player slot changed kind"),
    }
    match store.slots[1] {
        Slot::Live(EntityData::EnemyData { enemy, .. }) => assert_eq!(enemy.health, 15),
        _ => panic!("enemy slot changed kind"),
    }
    match store.slots[2] {
        // health goes negative transiently; no floor mid-tick
        Slot::Live(EntityData::EnemyData { enemy, .. }) => assert_eq!(enemy.health, -1),
        _ => panic!("enemy slot changed kind"),
    }

    // the death scan marks only the enemy whose health is gone
    enemy_despawn_pass(&mut store);
    assert!(matches!(store.slots[1], Slot::Live(_)));
    assert!(matches!(store.slots[2], Slot::Doomed(_)));
    assert!(matches!(store.slots[0], Slot::Live(_)));
}

#[test]
fn resolver_ignores_stale_targets() {
    let mut store = EntityStore { slots: vec![player_slot(), enemy_slot(20)] };
    let enemy_events = vec![
        EnemyDamageEvent { target: 99, damage: 5 }, // no such handle
        EnemyDamageEvent { target: 0, damage: 5 },  // the player is no enemy
    ];
    resolve_damage_pass(&mut store, 0, &Vec::new(), &enemy_events);
    match store.slots[0] {
        Slot::Live(EntityData::PlayerData { player, .. }) => assert_eq!(player.health, 100),
        _ => panic!("player slot changed kind"),
    }
    match store.slots[1] {
        Slot::Live(EntityData::EnemyData { enemy, .. }) => assert_eq!(enemy.health, 20),
        _ => panic!("enemy slot changed kind"),
    }
}

#[test]
fn wave_config_rejected_not_clamped() {
    assert_eq!(EnemyWave::new(0, 800, 3000), Err(WaveConfigError::InvalidCount));
    assert_eq!(EnemyWave::new(4, 0, 3000), Err(WaveConfigError::InvalidRadius));
    assert_eq!(EnemyWave::new(4, -5, 3000), Err(WaveConfigError::InvalidRadius));
    assert_eq!(EnemyWave::new(4, 800, 0), Err(WaveConfigError::InvalidPeriod));
    let w = EnemyWave::new(4, 800, 3000).unwrap();
    assert_eq!(w.number, 4);
    assert_eq!(w.radius, 800);
    assert_eq!(w.timer, Timer { elapsed_ms: 0, period_ms: 3000 });
}

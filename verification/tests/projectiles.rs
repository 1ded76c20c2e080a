use survival_core::damage::{DamageBus, EnemyDamageEvent};
use survival_core::enemy::{Enemy, EnemyAttack, EnemyWave};
use survival_core::geom::Vec2i;
use survival_core::guns::{player_shoot_pass, update_bullets_pass, Bullet, ContactPair, Gun};
use survival_core::player::Player;
use survival_core::store::{EntityData, EntityStore, Slot};
use survival_core::timer::{Countdown, Timer};

fn bullet_slot(remaining_ms: u64, damage: i32) -> Slot {
    Slot::Live(EntityData::BulletData {
        pos: Vec2i { x: 0, y: 0 },
        vel: Vec2i { x: 2000, y: 0 },
        bullet: Bullet { lifespan: Countdown { remaining_ms }, damage },
    })
}

fn enemy_slot_at(x: i64, y: i64) -> Slot {
    Slot::Live(EntityData::EnemyData {
        pos: Vec2i { x, y },
        vel: Vec2i { x: 0, y: 0 },
        enemy: Enemy { health: 20, speed: 69, distance_to_player: i64::MAX },
        attack: EnemyAttack { damage: 10, range: 80, timer: Timer { elapsed_ms: 0, period_ms: 1000 } },
    })
}

fn player_slot_at(x: i64, y: i64, gun: Gun) -> Slot {
    Slot::Live(EntityData::PlayerData {
        pos: Vec2i { x, y },
        vel: Vec2i { x: 0, y: 0 },
        player: Player { health: 100, speed: 120, exp: 0, upgrade_level: 0 },
        gun,
        wave: EnemyWave { number: 4, radius: 800, timer: Timer { elapsed_ms: 0, period_ms: 3000 } },
    })
}

fn remaining_of(s: &Slot) -> Option<u64> {
    match s {
        Slot::Live(EntityData::BulletData { bullet, .. }) => Some(bullet.lifespan.remaining_ms),
        _ => None,
    }
}

#[test]
fn bullet_without_contact_dies_exactly_on_time() {
    let mut store = EntityStore { slots: vec![bullet_slot(1000, 10)] };
    let mut bus = DamageBus::new();
    let contacts: Vec<ContactPair> = Vec::new();
    for expected in [750u64, 500, 250] {
        update_bullets_pass(&mut store, &mut bus, &contacts, 250);
        assert_eq!(remaining_of(&store.slots[0]), Some(expected));
    }
    // the fourth quarter second is the moment of expiry: destroyed now,
    // not before
    update_bullets_pass(&mut store, &mut bus, &contacts, 250);
    assert!(matches!(store.slots[0], Slot::Doomed(_)));
    assert!(bus.enemy_events.is_empty());
}

#[test]
fn bullet_contact_clamps_then_dies_in_the_window() {
    // contact at t=0.3 with a 0.1 s post-impact window: gone at t=0.4
    let mut store = EntityStore { slots: vec![bullet_slot(1000, 10), enemy_slot_at(1, 0)] };
    let mut bus = DamageBus::new();
    let touching = vec![ContactPair { a: 1, b: 0 }];
    update_bullets_pass(&mut store, &mut bus, &touching, 300);
    assert_eq!(remaining_of(&store.slots[0]), Some(100));
    assert_eq!(bus.enemy_events.len(), 1);
    assert_eq!(bus.enemy_events[0], EnemyDamageEvent { target: 1, damage: 10 });

    // still emitting inside [0.3, 0.4)
    update_bullets_pass(&mut store, &mut bus, &touching, 50);
    assert_eq!(remaining_of(&store.slots[0]), Some(50));
    assert_eq!(bus.enemy_events.len(), 2);

    // t = 0.4: destroyed, and an expired bullet emits nothing
    update_bullets_pass(&mut store, &mut bus, &touching, 50);
    assert!(matches!(store.slots[0], Slot::Doomed(_)));
    assert_eq!(bus.enemy_events.len(), 2);
}

#[test]
fn bullet_clamp_never_lengthens() {
    // a bullet with little left keeps its shorter remainder on impact
    let mut store = EntityStore { slots: vec![bullet_slot(120, 10), enemy_slot_at(1, 0)] };
    let mut bus = DamageBus::new();
    let touching = vec![ContactPair { a: 0, b: 1 }];
    update_bullets_pass(&mut store, &mut bus, &touching, 50);
    assert_eq!(remaining_of(&store.slots[0]), Some(70));
}

#[test]
fn bullet_hits_several_enemies_in_one_tick() {
    let mut store = EntityStore {
        slots: vec![bullet_slot(1000, 7), enemy_slot_at(1, 0), enemy_slot_at(-1, 0)],
    };
    let mut bus = DamageBus::new();
    let contacts = vec![ContactPair { a: 0, b: 1 }, ContactPair { a: 2, b: 0 }];
    update_bullets_pass(&mut store, &mut bus, &contacts, 100);
    assert_eq!(
        bus.enemy_events,
        vec![
            EnemyDamageEvent { target: 1, damage: 7 },
            EnemyDamageEvent { target: 2, damage: 7 },
        ]
    );
    assert_eq!(remaining_of(&store.slots[0]), Some(100));
}

#[test]
fn bullet_ignores_contacts_of_others() {
    let mut store = EntityStore { slots: vec![bullet_slot(1000, 7), enemy_slot_at(1, 0)] };
    let mut bus = DamageBus::new();
    // a pair not involving the bullet leaves it untouched
    let contacts = vec![ContactPair { a: 1, b: 5 }];
    update_bullets_pass(&mut store, &mut bus, &contacts, 100);
    assert!(bus.enemy_events.is_empty());
    assert_eq!(remaining_of(&store.slots[0]), Some(900));
}

#[test]
fn shot_aims_at_nearest_candidate() {
    let gun = Gun { damage: 10, range: 900, attack: Timer { elapsed_ms: 450, period_ms: 500 } };
    let mut store = EntityStore {
        slots: vec![player_slot_at(0, 0, gun), enemy_slot_at(100, 0), enemy_slot_at(50, 0)],
    };
    let targets = vec![1usize, 2];
    player_shoot_pass(&mut store, 0, &targets, 50);
    assert_eq!(store.slots.len(), 4);
    match store.slots[3] {
        Slot::Live(EntityData::BulletData { pos, vel, bullet }) => {
            assert_eq!(pos, Vec2i { x: 25, y: 0 }); // muzzle offset toward the nearer enemy
            assert_eq!(vel, Vec2i { x: 2000, y: 0 });
            assert_eq!(bullet.damage, 10);
            assert_eq!(bullet.lifespan.remaining_ms, 1000);
        },
        _ => panic!("no bullet spawned"),
    }
    // the cooldown was consumed
    match store.slots[0] {
        Slot::Live(EntityData::PlayerData { gun, .. }) => {
            assert_eq!(gun.attack.elapsed_ms, 0);
        },
        _ => panic!("player slot changed kind"),
    }
}

#[test]
fn shot_without_candidate_spends_the_cooldown() {
    let gun = Gun { damage: 10, range: 900, attack: Timer { elapsed_ms: 450, period_ms: 500 } };
    let mut store = EntityStore { slots: vec![player_slot_at(0, 0, gun)] };
    let targets: Vec<usize> = Vec::new();
    player_shoot_pass(&mut store, 0, &targets, 50);
    assert_eq!(store.slots.len(), 1); // no bullet
    match store.slots[0] {
        Slot::Live(EntityData::PlayerData { gun, .. }) => {
            assert_eq!(gun.attack.elapsed_ms, 0); // opportunity consumed, not queued
        },
        _ => panic!("player slot changed kind"),
    }
}

#[test]
fn shot_before_cooldown_does_nothing() {
    let gun = Gun { damage: 10, range: 900, attack: Timer { elapsed_ms: 0, period_ms: 500 } };
    let mut store = EntityStore { slots: vec![player_slot_at(0, 0, gun), enemy_slot_at(50, 0)] };
    let targets = vec![1usize];
    player_shoot_pass(&mut store, 0, &targets, 100);
    assert_eq!(store.slots.len(), 2);
    match store.slots[0] {
        Slot::Live(EntityData::PlayerData { gun, .. }) => {
            assert_eq!(gun.attack.elapsed_ms, 100);
        },
        _ => panic!("player slot changed kind"),
    }
}

#[test]
fn shot_skips_dead_candidates() {
    let gun = Gun { damage: 10, range: 900, attack: Timer { elapsed_ms: 450, period_ms: 500 } };
    let mut store = EntityStore { slots: vec![player_slot_at(0, 0, gun), enemy_slot_at(50, 0)] };
    // candidates that are not live enemies are ignored
    let targets = vec![0usize, 7, 1];
    player_shoot_pass(&mut store, 0, &targets, 50);
    assert_eq!(store.slots.len(), 3);
    match store.slots[2] {
        Slot::Live(EntityData::BulletData { vel, .. }) => {
            assert_eq!(vel, Vec2i { x: 2000, y: 0 });
        },
        _ => panic!("no bullet spawned"),
    }
}

use survival_core::enemy::{enemy_movement_pass, Enemy, EnemyAttack, EnemyWave};
use survival_core::geom::{Vec2i, COORD_LIMIT};
use survival_core::guns::Gun;
use survival_core::player::{player_movement_pass, Player};
use survival_core::store::{EntityData, EntityMove, EntityStore, Slot};
use survival_core::timer::Timer;

fn player_slot_at(x: i64, y: i64) -> Slot {
    Slot::Live(EntityData::PlayerData {
        pos: Vec2i { x, y },
        vel: Vec2i { x: 0, y: 0 },
        player: Player { health: 100, speed: 120, exp: 0, upgrade_level: 0 },
        gun: Gun { damage: 10, range: 900, attack: Timer { elapsed_ms: 0, period_ms: 500 } },
        wave: EnemyWave { number: 4, radius: 800, timer: Timer { elapsed_ms: 0, period_ms: 3000 } },
    })
}

fn enemy_slot_at(x: i64, y: i64) -> Slot {
    Slot::Live(EntityData::EnemyData {
        pos: Vec2i { x, y },
        vel: Vec2i { x: 0, y: 0 },
        enemy: Enemy { health: 20, speed: 69, distance_to_player: i64::MAX },
        attack: EnemyAttack { damage: 10, range: 80, timer: Timer { elapsed_ms: 0, period_ms: 1000 } },
    })
}

#[test]
fn pursuit_stores_distance_and_aims_velocity() {
    let mut store = EntityStore { slots: vec![player_slot_at(0, 0), enemy_slot_at(300, 400)] };
    enemy_movement_pass(&mut store, 0, 1000);
    match store.slots[1] {
        Slot::Live(EntityData::EnemyData { enemy, vel, .. }) => {
            assert_eq!(enemy.distance_to_player, 500);
            // unit direction in thousandths (-600, -800), scaled by
            // speed 69 * force 1000 over one second
            assert_eq!(vel, Vec2i { x: -41_400, y: -55_200 });
        },
        _ => panic!("enemy slot changed kind"),
    }
}

#[test]
fn pursuit_at_zero_distance_degrades_to_rest() {
    let mut store = EntityStore { slots: vec![player_slot_at(5, 5), enemy_slot_at(5, 5)] };
    enemy_movement_pass(&mut store, 0, 1000);
    match store.slots[1] {
        Slot::Live(EntityData::EnemyData { enemy, vel, .. }) => {
            assert_eq!(enemy.distance_to_player, 0);
            assert_eq!(vel, Vec2i { x: 0, y: 0 });
        },
        _ => panic!("enemy slot changed kind"),
    }
}

#[test]
fn player_velocity_straight_and_diagonal() {
    let mut store = EntityStore { slots: vec![player_slot_at(0, 0)] };
    player_movement_pass(&mut store, 0, 1, 0, 1000);
    match store.slots[0] {
        Slot::Live(EntityData::PlayerData { vel, .. }) => {
            assert_eq!(vel, Vec2i { x: 120_000, y: 0 });
        },
        _ => panic!("player slot changed kind"),
    }
    player_movement_pass(&mut store, 0, -1, 1, 1000);
    match store.slots[0] {
        Slot::Live(EntityData::PlayerData { vel, .. }) => {
            // each diagonal axis carries the 707/1000 factor
            assert_eq!(vel, Vec2i { x: -84_840, y: 84_840 });
        },
        _ => panic!("player slot changed kind"),
    }
}

#[test]
fn player_no_input_keeps_velocity() {
    let mut store = EntityStore { slots: vec![player_slot_at(0, 0)] };
    player_movement_pass(&mut store, 0, 1, 0, 1000);
    player_movement_pass(&mut store, 0, 0, 0, 1000);
    match store.slots[0] {
        Slot::Live(EntityData::PlayerData { vel, .. }) => {
            assert_eq!(vel, Vec2i { x: 120_000, y: 0 });
        },
        _ => panic!("player slot changed kind"),
    }
}

#[test]
fn physics_reports_move_bodies_and_clamp() {
    let mut store = EntityStore { slots: vec![player_slot_at(0, 0), enemy_slot_at(1, 1)] };
    let moves = vec![
        EntityMove { handle: 1, pos: Vec2i { x: COORD_LIMIT + 99, y: 3 } },
        EntityMove { handle: 7, pos: Vec2i { x: 1, y: 1 } }, // stale handle: ignored
    ];
    store.apply_moves(&moves);
    match store.slots[1] {
        Slot::Live(EntityData::EnemyData { pos, .. }) => {
            assert_eq!(pos, Vec2i { x: COORD_LIMIT, y: 3 });
        },
        _ => panic!("enemy slot changed kind"),
    }
}

#[test]
fn physics_reports_do_not_move_orbs() {
    let orb = Slot::Live(EntityData::OrbData {
        pos: Vec2i { x: 9, y: 9 },
        experience: survival_core::enemy::Experience { exp: 1 },
    });
    let mut store = EntityStore { slots: vec![orb] };
    store.apply_moves(&vec![EntityMove { handle: 0, pos: Vec2i { x: 50, y: 50 } }]);
    match store.slots[0] {
        Slot::Live(EntityData::OrbData { pos, .. }) => assert_eq!(pos, Vec2i { x: 9, y: 9 }),
        _ => panic!("orb slot changed kind"),
    }
}

#[test]
fn deferred_destruction_commits_at_tick_end() {
    let mut store = EntityStore { slots: vec![player_slot_at(0, 0), enemy_slot_at(1, 1)] };
    store.mark_destroyed(1);
    // still observable before the commit point
    assert!(matches!(store.slots[1], Slot::Doomed(_)));
    assert_eq!(store.present_handles(), vec![0, 1]);
    store.commit();
    assert!(matches!(store.slots[1], Slot::Free));
    assert_eq!(store.present_handles(), vec![0]);
}

#[test]
fn spawn_hands_back_the_new_handle() {
    let mut store = EntityStore::new();
    let h = store.spawn(match enemy_slot_at(2, 3) {
        Slot::Live(d) => d,
        _ => unreachable!(),
    });
    assert_eq!(h, 0);
    assert_eq!(store.slots.len(), 1);
    let h2 = store.spawn(match enemy_slot_at(4, 5) {
        Slot::Live(d) => d,
        _ => unreachable!(),
    });
    assert_eq!(h2, 1);
}

//! Enemy components: pursuit stats, the cooldown-gated melee attack, the wave
//! spawner configuration carried by the player, and the experience value an
//! orb holds.

use crate::damage::{DamageBus, PlayerDamageEvent, MAX_DAMAGE};
use crate::geom::{
    clamp_point, clamp_point_spec, dist, dist_spec, in_world, lemma_dist_dominates_axes,
    lemma_scaled_div_bounded, scaled_div, scaled_div_spec, wave_offset, wave_offset_spec,
    COORD_LIMIT, MAX_SPEED, Vec2i,
};
use crate::store::{
    data_pos, slot_data, slot_is_live_player, EntityData, EntityStore, Slot,
};
use crate::timer::{Timer, MAX_DT_MS, MAX_PERIOD_MS};
use vstd::prelude::*;

verus! {

/// Health a freshly spawned enemy starts with.
pub const ENEMY_HEALTH: i32 = 20;

/// Base pursuit speed of an enemy, world units per second.
pub const ENEMY_SPEED: i64 = 69;

/// Fixed scalar applied to every enemy movement impulse.
pub const ENEMY_MOVEMENT_FORCE: i64 = 1000;

/// Damage of one enemy melee attack.
pub const ENEMY_ATTACK_DAMAGE: i32 = 10;

/// Reach of the enemy melee attack, world units.
pub const ENEMY_ATTACK_RADIUS: i64 = 80;

/// Enemy attack cooldown, milliseconds.
pub const ENEMY_ATTACK_PERIOD_MS: u64 = 1000;

/// Sentinel distance of an enemy that has not yet been through a movement
/// pass: always out of attack range, resolved on the next pass.
pub const DISTANCE_UNKNOWN: i64 = i64::MAX;

/// An enemy: its health, pursuit speed and the distance to the player cached
/// by the most recent movement pass and consumed by the attack pass of the
/// same tick.
#[derive(Clone, Copy, PartialEq, Eq, Structural, Debug)]
pub struct Enemy {
    pub health: i32,
    pub speed: i64,
    pub distance_to_player: i64,
}

impl Enemy {
    pub open spec fn wf(self) -> bool {
        &&& 0 <= self.speed <= MAX_SPEED
        &&& (self.distance_to_player == DISTANCE_UNKNOWN || 0 <= self.distance_to_player
            <= 0x8000_0000i64)
    }

    /// A freshly spawned enemy: full health, base speed, distance unknown.
    pub fn spawned() -> (e: Enemy)
        ensures
            e == (Enemy {
                health: ENEMY_HEALTH,
                speed: ENEMY_SPEED,
                distance_to_player: DISTANCE_UNKNOWN,
            }),
            e.wf(),
    {
        Enemy { health: ENEMY_HEALTH, speed: ENEMY_SPEED, distance_to_player: DISTANCE_UNKNOWN }
    }
}

/// The enemy melee attack: damage, reach, and its own repeating cooldown that
/// runs continuously whether or not the player is in range.
#[derive(Clone, Copy, PartialEq, Eq, Structural, Debug)]
pub struct EnemyAttack {
    pub damage: i32,
    pub range: i64,
    pub timer: Timer,
}

impl EnemyAttack {
    pub open spec fn wf(self) -> bool {
        &&& 0 <= self.damage <= MAX_DAMAGE
        &&& 0 <= self.range <= COORD_LIMIT
        &&& self.timer.wf()
    }

    /// The attack of a freshly spawned enemy; the cooldown starts at zero
    /// elapsed, so the first strike waits a whole period.
    pub fn spawned() -> (a: EnemyAttack)
        ensures
            a == (EnemyAttack {
                damage: ENEMY_ATTACK_DAMAGE,
                range: ENEMY_ATTACK_RADIUS,
                timer: (Timer { elapsed_ms: 0u64, period_ms: ENEMY_ATTACK_PERIOD_MS }),
            }),
            a.wf(),
    {
        EnemyAttack {
            damage: ENEMY_ATTACK_DAMAGE,
            range: ENEMY_ATTACK_RADIUS,
            timer: Timer::new(ENEMY_ATTACK_PERIOD_MS),
        }
    }
}

/// Most enemies one wave may hold.
pub const MAX_WAVE_COUNT: u32 = 10_000;

/// A rejected wave configuration, reported at construction time.
#[derive(Clone, Copy, PartialEq, Eq, Structural, Debug)]
pub enum WaveConfigError {
    InvalidCount,
    InvalidRadius,
    InvalidPeriod,
}

/// The wave spawner state attached to the player: enemies per wave, spawn
/// circle radius, and the repeating spawn timer.
#[derive(Clone, Copy, PartialEq, Eq, Structural, Debug)]
pub struct EnemyWave {
    pub number: u32,
    pub radius: i64,
    pub timer: Timer,
}

impl EnemyWave {
    pub open spec fn wf(self) -> bool {
        &&& 1 <= self.number <= MAX_WAVE_COUNT
        &&& 1 <= self.radius <= COORD_LIMIT
        &&& self.timer.wf()
    }

    /// Validating constructor: a wave count of zero, a non-positive radius or
    /// a period outside the clock bounds is a configuration error, never
    /// silently clamped.
    pub fn new(number: u32, radius: i64, period_ms: u64) -> (r: Result<EnemyWave, WaveConfigError>)
        ensures
            r is Ok <==> (1 <= number <= MAX_WAVE_COUNT && 1 <= radius <= COORD_LIMIT && 1
                <= period_ms <= MAX_PERIOD_MS),
            r matches Ok(w) ==> w == (EnemyWave {
                number,
                radius,
                timer: (Timer { elapsed_ms: 0u64, period_ms }),
            }) && w.wf(),
            r == Err::<EnemyWave, WaveConfigError>(WaveConfigError::InvalidCount) <==> !(1 <= number
                <= MAX_WAVE_COUNT),
            r == Err::<EnemyWave, WaveConfigError>(WaveConfigError::InvalidRadius) <==> (1 <= number
                <= MAX_WAVE_COUNT && !(1 <= radius <= COORD_LIMIT)),
            r == Err::<EnemyWave, WaveConfigError>(WaveConfigError::InvalidPeriod) <==> (1 <= number
                <= MAX_WAVE_COUNT && 1 <= radius <= COORD_LIMIT && !(1 <= period_ms
                <= MAX_PERIOD_MS)),
    {
        if number < 1 || number > MAX_WAVE_COUNT {
            Err(WaveConfigError::InvalidCount)
        } else if radius < 1 || radius > COORD_LIMIT {
            Err(WaveConfigError::InvalidRadius)
        } else if period_ms < 1 || period_ms > MAX_PERIOD_MS {
            Err(WaveConfigError::InvalidPeriod)
        } else {
            Ok(EnemyWave { number, radius, timer: Timer::new(period_ms) })
        }
    }
}

/// The experience value carried by one orb.
#[derive(Clone, Copy, PartialEq, Eq, Structural, Debug)]
pub struct Experience {
    pub exp: u32,
}

/// A freshly spawned enemy entity at `p`: full health, base speed, distance
/// unknown, cooldown at zero elapsed, no velocity yet.
pub open spec fn spawned_enemy_at(p: Vec2i) -> EntityData {
    EntityData::EnemyData {
        pos: p,
        vel: (Vec2i { x: 0i64, y: 0i64 }),
        enemy: (Enemy {
            health: ENEMY_HEALTH,
            speed: ENEMY_SPEED,
            distance_to_player: DISTANCE_UNKNOWN,
        }),
        attack: (EnemyAttack {
            damage: ENEMY_ATTACK_DAMAGE,
            range: ENEMY_ATTACK_RADIUS,
            timer: (Timer { elapsed_ms: 0u64, period_ms: ENEMY_ATTACK_PERIOD_MS }),
        }),
    }
}

/// Where slot `n` of a wave spawns: evenly on the circle of the wave's radius
/// around the player's position at spawn time, clamped into the world.
pub open spec fn wave_spawn_pos_spec(ppos: Vec2i, n: int, count: int, radius: int) -> Vec2i {
    let o = wave_offset_spec(n, count, radius);
    clamp_point_spec(Vec2i { x: (ppos.x + o.x) as i64, y: (ppos.y + o.y) as i64 })
}

/// A wave of four on radius `r`, spawned around a player standing at least
/// `r` from the world's edge, stands exactly at the four cardinal points of
/// the circle: `p + r*(cos t, sin t)` for `t` of zero, a quarter, a half and
/// three quarters of a turn.
pub proof fn lemma_wave_of_four_cardinal(p: Vec2i, r: i64)
    requires
        1 <= r <= COORD_LIMIT,
        -COORD_LIMIT <= p.x - r,
        p.x + r <= COORD_LIMIT,
        -COORD_LIMIT <= p.y - r,
        p.y + r <= COORD_LIMIT,
    ensures
        wave_spawn_pos_spec(p, 0, 4, r as int) == (Vec2i { x: (p.x + r) as i64, y: p.y }),
        wave_spawn_pos_spec(p, 1, 4, r as int) == (Vec2i { x: p.x, y: (p.y + r) as i64 }),
        wave_spawn_pos_spec(p, 2, 4, r as int) == (Vec2i { x: (p.x - r) as i64, y: p.y }),
        wave_spawn_pos_spec(p, 3, 4, r as int) == (Vec2i { x: p.x, y: (p.y - r) as i64 }),
{
    crate::geom::lemma_wave_offset_cardinal(r);
}

/// The player slot after the wave spawner ticked its timer.
pub open spec fn wave_ticked_slot(s: Slot, dt: int) -> Slot {
    match s {
        Slot::Live(EntityData::PlayerData { pos, vel, player, gun, wave }) => Slot::Live(
            EntityData::PlayerData {
                pos,
                vel,
                player,
                gun,
                wave: (EnemyWave {
                    number: wave.number,
                    radius: wave.radius,
                    timer: wave.timer.after_tick(dt),
                }),
            },
        ),
        _ => s,
    }
}

/// Wave spawner pass. The repeating timer advances by the elapsed time; when
/// it elapses, exactly one wave of `number` enemies spawns on the circle of
/// the wave's radius around the player's current position, and the timer
/// wraps into its next cycle.
pub fn enemy_spawn_pass(store: &mut EntityStore, ph: usize, dt: u64)
    requires
        old(store).wf(),
        ph < old(store).slots@.len(),
        slot_is_live_player(old(store).slots@[ph as int]),
        dt <= MAX_DT_MS,
    ensures
        final(store).wf(),
        forall|i: int|
            0 <= i < old(store).slots@.len() && i != ph ==> final(store).slots@[i] == old(
                store,
            ).slots@[i],
        final(store).slots@[ph as int] == wave_ticked_slot(old(store).slots@[ph as int], dt as int),
        ({
            let os = old(store).slots@;
            let ns = final(store).slots@;
            match os[ph as int] {
                Slot::Live(EntityData::PlayerData { pos, wave, .. }) => {
                    if wave.timer.finishes(dt as int) {
                        &&& ns.len() == os.len() + wave.number
                        &&& forall|n: int|
                            0 <= n < wave.number ==> ns[os.len() + n] == Slot::Live(
                                spawned_enemy_at(
                                    wave_spawn_pos_spec(pos, n, wave.number as int, wave.radius as int),
                                ),
                            )
                    } else {
                        ns.len() == os.len()
                    }
                },
                _ => false,
            }
        }),
{
    let s = store.slots[ph];
    match s {
        Slot::Live(EntityData::PlayerData { pos, vel, player, gun, wave }) => {
            let mut timer = wave.timer;
            let finished = timer.tick(dt);
            let nwave = EnemyWave { number: wave.number, radius: wave.radius, timer };
            store.slots.set(
                ph,
                Slot::Live(EntityData::PlayerData { pos, vel, player, gun, wave: nwave }),
            );
            if finished {
                let ghost base = old(store).slots@.len() as int;
                let mut n: u32 = 0;
                while n < wave.number
                    invariant
                        store.wf(),
                        base == old(store).slots@.len(),
                        ph < base,
                        n <= wave.number,
                        1 <= wave.number <= MAX_WAVE_COUNT,
                        1 <= wave.radius <= COORD_LIMIT,
                        in_world(pos),
                        old(store).slots@[ph as int] == Slot::Live(
                            EntityData::PlayerData { pos, vel, player, gun, wave },
                        ),
                        store.slots@.len() == base + n,
                        forall|i: int|
                            0 <= i < base && i != ph ==> store.slots@[i] == old(store).slots@[i],
                        store.slots@[ph as int] == wave_ticked_slot(
                            old(store).slots@[ph as int],
                            dt as int,
                        ),
                        forall|m: int|
                            0 <= m < n ==> store.slots@[base + m] == Slot::Live(
                                spawned_enemy_at(
                                    wave_spawn_pos_spec(pos, m, wave.number as int, wave.radius as int),
                                ),
                            ),
                    decreases wave.number - n,
                {
                    let o = wave_offset(n, wave.number, wave.radius);
                    let sp = clamp_point(Vec2i { x: pos.x + o.x, y: pos.y + o.y });
                    let e = EntityData::EnemyData {
                        pos: sp,
                        vel: Vec2i { x: 0, y: 0 },
                        enemy: Enemy::spawned(),
                        attack: EnemyAttack::spawned(),
                    };
                    store.spawn(e);
                    n = n + 1;
                }
            }
        },
        _ => {
            proof {
                assert(false);
            }
        },
    }
}

/// An enemy slot after the movement pass: `distance_to_player` refreshed from
/// the positions of this tick, velocity aimed at the player and scaled by
/// speed, the movement force and the elapsed time. A zero distance degrades
/// to no movement.
pub open spec fn moved_enemy_slot(s: Slot, ppos: Vec2i, dt: int) -> Slot {
    match s {
        Slot::Live(EntityData::EnemyData { pos, vel, enemy, attack }) => {
            let d = dist_spec(pos, ppos);
            if d == 0 {
                Slot::Live(
                    EntityData::EnemyData {
                        pos,
                        vel: (Vec2i { x: 0i64, y: 0i64 }),
                        enemy: (Enemy {
                            health: enemy.health,
                            speed: enemy.speed,
                            distance_to_player: 0i64,
                        }),
                        attack,
                    },
                )
            } else {
                Slot::Live(
                    EntityData::EnemyData {
                        pos,
                        vel: (Vec2i {
                            x: enemy_vel_component(ppos.x - pos.x, d, enemy.speed as int, dt),
                            y: enemy_vel_component(ppos.y - pos.y, d, enemy.speed as int, dt),
                        }),
                        enemy: (Enemy {
                            health: enemy.health,
                            speed: enemy.speed,
                            distance_to_player: d as i64,
                        }),
                        attack,
                    },
                )
            }
        },
        _ => s,
    }
}

/// One velocity component of a pursuing enemy: the unit direction component
/// in thousandths, scaled by speed, the fixed movement force and the elapsed
/// time in seconds.
pub open spec fn enemy_vel_component(delta: int, d: int, speed: int, dt: int) -> i64 {
    scaled_div_spec(
        scaled_div_spec(delta, 1000, d),
        speed * ENEMY_MOVEMENT_FORCE * dt,
        1_000_000,
    ) as i64
}

/// Enemy movement pass: every enemy stores its distance to the player and
/// turns its velocity toward the player. Runs before the attack pass of the
/// same tick, which consumes the stored distance.
pub fn enemy_movement_pass(store: &mut EntityStore, ph: usize, dt: u64)
    requires
        old(store).wf(),
        ph < old(store).slots@.len(),
        slot_is_live_player(old(store).slots@[ph as int]),
        dt <= MAX_DT_MS,
    ensures
        final(store).wf(),
        final(store).slots@.len() == old(store).slots@.len(),
        forall|i: int|
            0 <= i < old(store).slots@.len() ==> final(store).slots@[i] == moved_enemy_slot(
                old(store).slots@[i],
                data_pos(slot_data(old(store).slots@[ph as int])),
                dt as int,
            ),
{
    let ppos: Vec2i = match store.slots[ph] {
        Slot::Live(EntityData::PlayerData { pos, .. }) => pos,
        _ => {
            proof {
                assert(false);
            }
            Vec2i { x: 0, y: 0 }
        },
    };
    let n = store.slots.len();
    let mut i: usize = 0;
    while i < n
        invariant
            store.wf(),
            n == old(store).slots@.len(),
            store.slots@.len() == n,
            i <= n,
            dt <= MAX_DT_MS,
            ppos == data_pos(slot_data(old(store).slots@[ph as int])),
            in_world(ppos),
            forall|j: int|
                0 <= j < i ==> store.slots@[j] == moved_enemy_slot(
                    old(store).slots@[j],
                    ppos,
                    dt as int,
                ),
            forall|j: int| i <= j < n ==> store.slots@[j] == old(store).slots@[j],
        decreases n - i,
    {
        let s = store.slots[i];
        match s {
            Slot::Live(EntityData::EnemyData { pos, vel, enemy, attack }) => {
                let d = dist(pos, ppos);
                if d == 0 {
                    let nd = EntityData::EnemyData {
                        pos,
                        vel: Vec2i { x: 0, y: 0 },
                        enemy: Enemy {
                            health: enemy.health,
                            speed: enemy.speed,
                            distance_to_player: 0,
                        },
                        attack,
                    };
                    store.slots.set(i, Slot::Live(nd));
                } else {
                    proof {
                        lemma_dist_dominates_axes(pos, ppos);
                        assert((ppos.x - pos.x) * 1000 <= 0x4000_0000_0000_0000
                            && -0x4000_0000_0000_0000 <= (ppos.x - pos.x) * 1000) by (nonlinear_arith)
                            requires
                                -0x4000_0000 <= ppos.x - pos.x <= 0x4000_0000,
                        ;
                        assert((ppos.y - pos.y) * 1000 <= 0x4000_0000_0000_0000
                            && -0x4000_0000_0000_0000 <= (ppos.y - pos.y) * 1000) by (nonlinear_arith)
                            requires
                                -0x4000_0000 <= ppos.y - pos.y <= 0x4000_0000,
                        ;
                    }
                    let qx = scaled_div(ppos.x - pos.x, 1000, d);
                    let qy = scaled_div(ppos.y - pos.y, 1000, d);
                    proof {
                        lemma_scaled_div_bounded((ppos.x - pos.x) as int, 1000, d as int);
                        lemma_scaled_div_bounded((ppos.y - pos.y) as int, 1000, d as int);
                        assert(0 <= (enemy.speed as int) * (ENEMY_MOVEMENT_FORCE as int) * (
                        dt as int) <= 6_000_000_000_000i64) by (nonlinear_arith)
                            requires
                                0 <= enemy.speed <= MAX_SPEED,
                                0 <= dt <= MAX_DT_MS,
                                MAX_SPEED == 100_000i64,
                                MAX_DT_MS == 60_000u64,
                                ENEMY_MOVEMENT_FORCE == 1000i64,
                        ;
                    }
                    let num: i64 = enemy.speed * ENEMY_MOVEMENT_FORCE * (dt as i64);
                    proof {
                        assert(-0x4000_0000_0000_0000 <= (qx as int) * (num as int)
                            <= 0x4000_0000_0000_0000 && -0x4000_0000_0000_0000 <= (qy as int) * (
                        num as int) <= 0x4000_0000_0000_0000) by (nonlinear_arith)
                            requires
                                -1000 <= qx <= 1000,
                                -1000 <= qy <= 1000,
                                0 <= num <= 6_000_000_000_000i64,
                        ;
                    }
                    let vx = scaled_div(qx, num, 1_000_000);
                    let vy = scaled_div(qy, num, 1_000_000);
                    let nd = EntityData::EnemyData {
                        pos,
                        vel: Vec2i { x: vx, y: vy },
                        enemy: Enemy {
                            health: enemy.health,
                            speed: enemy.speed,
                            distance_to_player: d,
                        },
                        attack,
                    };
                    store.slots.set(i, Slot::Live(nd));
                }
            },
            _ => {},
        }
        i = i + 1;
    }
}

/// The enemy attacks during this tick: its cooldown elapses and the distance
/// stored by this tick's movement pass is within reach.
pub open spec fn enemy_attacks(d: EntityData, dt: int) -> bool {
    match d {
        EntityData::EnemyData { enemy, attack, .. } => attack.timer.finishes(dt)
            && enemy.distance_to_player <= attack.range,
        _ => false,
    }
}

/// The damage an enemy's attack carries.
pub open spec fn attack_damage_of(d: EntityData) -> i32 {
    match d {
        EntityData::EnemyData { attack, .. } => attack.damage,
        _ => 0,
    }
}

/// An enemy slot after the attack pass ticked its cooldown.
pub open spec fn attack_ticked_slot(s: Slot, dt: int) -> Slot {
    match s {
        Slot::Live(EntityData::EnemyData { pos, vel, enemy, attack }) => Slot::Live(
            EntityData::EnemyData {
                pos,
                vel,
                enemy,
                attack: (EnemyAttack {
                    damage: attack.damage,
                    range: attack.range,
                    timer: attack.timer.after_tick(dt),
                }),
            },
        ),
        _ => s,
    }
}

/// The damage intents the attack pass emits against the player, in slot
/// order: one intent of the attack's damage per enemy whose cooldown elapses
/// in range.
pub open spec fn attack_emissions(s: Seq<Slot>, dt: int) -> Seq<PlayerDamageEvent>
    decreases s.len(),
{
    if s.len() == 0 {
        Seq::empty()
    } else {
        attack_emissions(s.drop_last(), dt) + if s.last() is Live && enemy_attacks(
            slot_data(s.last()),
            dt,
        ) {
            seq![(PlayerDamageEvent { damage: attack_damage_of(slot_data(s.last())) })]
        } else {
            Seq::<PlayerDamageEvent>::empty()
        }
    }
}

/// One enemy's attack evaluation: the cooldown advances by the elapsed time
/// regardless of distance; when it elapses, an intent of the attack's damage
/// is emitted exactly when the stored distance is within reach, and the
/// cooldown wraps either way -- an out-of-range opportunity is forfeited,
/// not queued.
pub fn enemy_attack_step(enemy: &Enemy, attack: &mut EnemyAttack, dt: u64) -> (r: Option<
    PlayerDamageEvent,
>)
    requires
        old(attack).wf(),
        dt <= MAX_DT_MS,
    ensures
        final(attack).wf(),
        final(attack).damage == old(attack).damage,
        final(attack).range == old(attack).range,
        final(attack).timer == old(attack).timer.after_tick(dt as int),
        r is Some <==> (old(attack).timer.finishes(dt as int) && enemy.distance_to_player <= old(
            attack,
        ).range),
        r matches Some(e) ==> e == (PlayerDamageEvent { damage: old(attack).damage }),
{
    let finished = attack.timer.tick(dt);
    if finished && enemy.distance_to_player <= attack.range {
        Some(PlayerDamageEvent { damage: attack.damage })
    } else {
        None
    }
}

/// Enemy attack pass: every enemy's cooldown advances; each one that elapses
/// in range queues one damage intent against the player. Several enemies may
/// fire in one tick; the resolver sums them.
pub fn enemy_attack_pass(store: &mut EntityStore, bus: &mut DamageBus, dt: u64)
    requires
        old(store).wf(),
        old(bus).wf(),
        dt <= MAX_DT_MS,
    ensures
        final(store).wf(),
        final(bus).wf(),
        final(store).slots@.len() == old(store).slots@.len(),
        forall|i: int|
            0 <= i < old(store).slots@.len() ==> final(store).slots@[i] == attack_ticked_slot(
                old(store).slots@[i],
                dt as int,
            ),
        final(bus).player_events@ == old(bus).player_events@ + attack_emissions(
            old(store).slots@,
            dt as int,
        ),
        final(bus).enemy_events@ == old(bus).enemy_events@,
{
    let n = store.slots.len();
    let mut i: usize = 0;
    proof {
        assert(old(store).slots@.take(0) =~= Seq::<Slot>::empty());
        assert(bus.player_events@ =~= old(bus).player_events@ + attack_emissions(
            old(store).slots@.take(0),
            dt as int,
        ));
    }
    while i < n
        invariant
            store.wf(),
            bus.wf(),
            n == old(store).slots@.len(),
            store.slots@.len() == n,
            i <= n,
            dt <= MAX_DT_MS,
            forall|j: int|
                0 <= j < i ==> store.slots@[j] == attack_ticked_slot(
                    old(store).slots@[j],
                    dt as int,
                ),
            forall|j: int| i <= j < n ==> store.slots@[j] == old(store).slots@[j],
            bus.player_events@ == old(bus).player_events@ + attack_emissions(
                old(store).slots@.take(i as int),
                dt as int,
            ),
            bus.enemy_events@ == old(bus).enemy_events@,
        decreases n - i,
    {
        let s = store.slots[i];
        match s {
            Slot::Live(EntityData::EnemyData { pos, vel, enemy, attack }) => {
                let mut na = attack;
                let r = enemy_attack_step(&enemy, &mut na, dt);
                store.slots.set(
                    i,
                    Slot::Live(EntityData::EnemyData { pos, vel, enemy, attack: na }),
                );
                match r {
                    Some(e) => {
                        bus.emit_player(e);
                    },
                    None => {},
                }
            },
            _ => {},
        }
        proof {
            assert(old(store).slots@.take(i as int + 1).drop_last() =~= old(store).slots@.take(
                i as int,
            ));
            assert(old(store).slots@.take(i as int + 1).last() == old(store).slots@[i as int]);
        }
        i = i + 1;
    }
    proof {
        assert(old(store).slots@.take(n as int) =~= old(store).slots@);
    }
}

/// An enemy slot marked for destruction when its health is gone.
pub open spec fn death_marked_slot(s: Slot) -> Slot {
    match s {
        Slot::Live(EntityData::EnemyData { enemy, .. }) => {
            if enemy.health <= 0 {
                Slot::Doomed(slot_data(s))
            } else {
                s
            }
        },
        _ => s,
    }
}

/// Death scan: after resolution, every enemy whose health dropped to zero or
/// below is marked for destruction; the commit point at tick end frees it.
pub fn enemy_despawn_pass(store: &mut EntityStore)
    requires
        old(store).wf(),
    ensures
        final(store).wf(),
        final(store).slots@.len() == old(store).slots@.len(),
        forall|i: int|
            0 <= i < old(store).slots@.len() ==> final(store).slots@[i] == death_marked_slot(
                old(store).slots@[i],
            ),
{
    let n = store.slots.len();
    let mut i: usize = 0;
    while i < n
        invariant
            store.wf(),
            n == old(store).slots@.len(),
            store.slots@.len() == n,
            i <= n,
            forall|j: int|
                0 <= j < i ==> store.slots@[j] == death_marked_slot(old(store).slots@[j]),
            forall|j: int| i <= j < n ==> store.slots@[j] == old(store).slots@[j],
        decreases n - i,
    {
        let s = store.slots[i];
        match s {
            Slot::Live(EntityData::EnemyData { pos, vel, enemy, attack }) => {
                if enemy.health <= 0 {
                    store.slots.set(
                        i,
                        Slot::Doomed(EntityData::EnemyData { pos, vel, enemy, attack }),
                    );
                }
            },
            _ => {},
        }
        i = i + 1;
    }
}

} // verus!

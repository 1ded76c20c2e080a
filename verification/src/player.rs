//! The player: stats, the default loadout created on entering gameplay, and
//! the upgrades the level-up screen can apply.

use crate::enemy::{EnemyWave, MAX_WAVE_COUNT};
use crate::geom::{
    dist, dist_spec, in_world, move_toward, move_toward_spec, scaled_div, scaled_div_spec, Vec2i,
    COORD_LIMIT, MAX_SPEED,
};
use crate::guns::Gun;
use crate::store::{slot_data, slot_is_live_player, EntityData, EntityStore, Slot};
use crate::timer::{Timer, MAX_DT_MS, MAX_PERIOD_MS};
use vstd::prelude::*;

verus! {

/// Player movement speed, world units per second.
pub const PLAYER_SPEED: i64 = 120;

/// Health the player starts a run with.
pub const PLAYER_HEALTH: i32 = 100;

/// Fixed scalar applied to every player movement impulse.
pub const PLAYER_MOVEMENT_FORCE: i64 = 1000;

/// Damage of the starting gun.
pub const PLAYER_GUN_DAMAGE: i32 = 10;

/// Target-query radius of the starting gun, world units.
pub const PLAYER_GUN_RANGE: i64 = 900;

/// Attack cooldown of the starting gun, milliseconds.
pub const PLAYER_ATTACK_PERIOD_MS: u64 = 500;

/// Orbs closer than this are pulled toward the player, world units.
pub const PLAYER_PULL_EXP_RANGE: i64 = 600;

/// Orbs closer than this are collected, world units.
pub const PLAYER_COLLECT_EXP_RANGE: i64 = 10;

/// Speed of a pulled orb, world units per second.
pub const EXP_SPEED: i64 = 400;

/// Enemies per wave of the default spawner.
pub const ENEMY_WAVE_NUMBER: u32 = 4;

/// Spawn circle radius of the default spawner, world units.
pub const ENEMY_WAVE_RADIUS: i64 = 800;

/// Spawn period of the default spawner, milliseconds.
pub const ENEMY_WAVE_SPAWN_TIME_MS: u64 = 3000;

/// Gun damage gained by the attack-damage upgrade.
pub const UPGRADE_DAMAGE_DELTA: i32 = 5;

/// Cooldown shaved off by the attack-speed upgrade, milliseconds.
pub const UPGRADE_ATTACK_PERIOD_DELTA_MS: u64 = 50;

/// The attack cooldown never drops below this, milliseconds.
pub const MIN_ATTACK_PERIOD_MS: u64 = 100;

/// Fixed-point factor for a diagonal input direction: 1/sqrt(2) in
/// thousandths.
pub const NORM_DIAG: i64 = 707;

/// The player: health, movement speed, collected experience and how many
/// upgrades have been applied.
#[derive(Clone, Copy, PartialEq, Eq, Structural, Debug)]
pub struct Player {
    pub health: i32,
    pub speed: i64,
    pub exp: u32,
    pub upgrade_level: u32,
}

impl Player {
    pub open spec fn wf(self) -> bool {
        0 <= self.speed <= MAX_SPEED
    }

    /// The player of a fresh run.
    pub fn spawned() -> (p: Player)
        ensures
            p == (Player { health: PLAYER_HEALTH, speed: PLAYER_SPEED, exp: 0u32, upgrade_level: 0u32 }),
            p.wf(),
    {
        Player { health: PLAYER_HEALTH, speed: PLAYER_SPEED, exp: 0, upgrade_level: 0 }
    }
}

/// The upgrade chosen on the level-up screen.
#[derive(Clone, Copy, PartialEq, Eq, Structural, Debug)]
pub enum PlayerUpgradeEvent {
    AttackSpeed,
    AttackDamage,
}

/// The starting gun.
pub fn default_gun() -> (g: Gun)
    ensures
        g == (Gun {
            damage: PLAYER_GUN_DAMAGE,
            range: PLAYER_GUN_RANGE,
            attack: (Timer { elapsed_ms: 0u64, period_ms: PLAYER_ATTACK_PERIOD_MS }),
        }),
        g.wf(),
{
    Gun { damage: PLAYER_GUN_DAMAGE, range: PLAYER_GUN_RANGE, attack: Timer::new(PLAYER_ATTACK_PERIOD_MS) }
}

/// The sign of an input axis: the abstract movement vector reduced to
/// left/none/right per axis.
pub open spec fn sign_spec(v: int) -> int {
    if v > 0 {
        1
    } else if v < 0 {
        -1
    } else {
        0
    }
}

/// The player's velocity for a movement direction: each pressed axis
/// contributes speed times the movement force over the elapsed time, and a
/// diagonal is scaled by the fixed-point factor for 1/sqrt(2) so its length
/// matches a straight move.
pub open spec fn player_vel_spec(sx: int, sy: int, speed: int, dt: int) -> Vec2i {
    let num = speed * PLAYER_MOVEMENT_FORCE * dt;
    if sx != 0 && sy != 0 {
        (Vec2i {
            x: scaled_div_spec(sx, num * NORM_DIAG, 1_000_000) as i64,
            y: scaled_div_spec(sy, num * NORM_DIAG, 1_000_000) as i64,
        })
    } else {
        (Vec2i {
            x: scaled_div_spec(sx, num, 1000) as i64,
            y: scaled_div_spec(sy, num, 1000) as i64,
        })
    }
}

/// The player slot after the movement pass: a zero direction leaves the
/// velocity untouched, anything else points it the pressed way.
pub open spec fn moved_player_slot(s: Slot, mx: int, my: int, dt: int) -> Slot {
    match s {
        Slot::Live(EntityData::PlayerData { pos, vel, player, gun, wave }) => {
            let sx = sign_spec(mx);
            let sy = sign_spec(my);
            if sx == 0 && sy == 0 {
                s
            } else {
                Slot::Live(
                    EntityData::PlayerData {
                        pos,
                        vel: player_vel_spec(sx, sy, player.speed as int, dt),
                        player,
                        gun,
                        wave,
                    },
                )
            }
        },
        _ => s,
    }
}

/// Movement pass: the input collaborator's abstract movement vector becomes
/// the player's velocity for this tick; no input means no velocity update.
pub fn player_movement_pass(store: &mut EntityStore, ph: usize, mx: i64, my: i64, dt: u64)
    requires
        old(store).wf(),
        ph < old(store).slots@.len(),
        slot_is_live_player(old(store).slots@[ph as int]),
        dt <= MAX_DT_MS,
    ensures
        final(store).wf(),
        final(store).slots@.len() == old(store).slots@.len(),
        forall|i: int|
            0 <= i < old(store).slots@.len() && i != ph ==> final(store).slots@[i] == old(
                store,
            ).slots@[i],
        final(store).slots@[ph as int] == moved_player_slot(
            old(store).slots@[ph as int],
            mx as int,
            my as int,
            dt as int,
        ),
{
    let sx: i64 = if mx > 0 {
        1
    } else if mx < 0 {
        -1
    } else {
        0
    };
    let sy: i64 = if my > 0 {
        1
    } else if my < 0 {
        -1
    } else {
        0
    };
    if sx == 0 && sy == 0 {
        return ;
    }
    let s = store.slots[ph];
    match s {
        Slot::Live(EntityData::PlayerData { pos, vel, player, gun, wave }) => {
            proof {
                assert(0 <= (player.speed as int) * (PLAYER_MOVEMENT_FORCE as int) * (dt as int)
                    <= 6_000_000_000_000i64) by (nonlinear_arith)
                    requires
                        0 <= player.speed <= MAX_SPEED,
                        0 <= dt <= MAX_DT_MS,
                        MAX_SPEED == 100_000i64,
                        MAX_DT_MS == 60_000u64,
                        PLAYER_MOVEMENT_FORCE == 1000i64,
                ;
            }
            let num: i64 = player.speed * PLAYER_MOVEMENT_FORCE * (dt as i64);
            let nvel: Vec2i = if sx != 0 && sy != 0 {
                let numd: i64 = num * NORM_DIAG;
                proof {
                    assert({
                        &&& -0x4000_0000_0000_0000 <= (sx as int) * (numd as int)
                            <= 0x4000_0000_0000_0000
                        &&& -0x4000_0000_0000_0000 <= (sy as int) * (numd as int)
                            <= 0x4000_0000_0000_0000
                    }) by (nonlinear_arith)
                        requires
                            -1 <= sx <= 1,
                            -1 <= sy <= 1,
                            0 <= numd <= 0x4000_0000_0000_0000,
                    ;
                }
                Vec2i { x: scaled_div(sx, numd, 1_000_000), y: scaled_div(sy, numd, 1_000_000) }
            } else {
                proof {
                    assert({
                        &&& -0x4000_0000_0000_0000 <= (sx as int) * (num as int)
                            <= 0x4000_0000_0000_0000
                        &&& -0x4000_0000_0000_0000 <= (sy as int) * (num as int)
                            <= 0x4000_0000_0000_0000
                    }) by (nonlinear_arith)
                        requires
                            -1 <= sx <= 1,
                            -1 <= sy <= 1,
                            0 <= num <= 0x4000_0000_0000_0000,
                    ;
                }
                Vec2i { x: scaled_div(sx, num, 1000), y: scaled_div(sy, num, 1000) }
            };
            store.slots.set(
                ph,
                Slot::Live(EntityData::PlayerData { pos, vel: nvel, player, gun, wave }),
            );
        },
        _ => {
            proof {
                assert(false);
            }
        },
    }
}

/// How far an orb is pulled in one tick, world units.
pub open spec fn orb_step_spec(dt: int) -> int {
    (EXP_SPEED * dt) / 1000
}

/// An orb slot after the progression pass, against the player's position.
/// Distances are measured before the orb moves: an orb inside the pull
/// radius moves toward the player, and one already inside the collection
/// radius is marked for destruction after its move.
pub open spec fn orb_updated_slot(s: Slot, ppos: Vec2i, dt: int) -> Slot {
    match s {
        Slot::Live(EntityData::OrbData { pos, experience }) => {
            let d = dist_spec(pos, ppos);
            let npos = if d < PLAYER_PULL_EXP_RANGE {
                move_toward_spec(pos, ppos, orb_step_spec(dt))
            } else {
                pos
            };
            if d < PLAYER_COLLECT_EXP_RANGE {
                Slot::Doomed(EntityData::OrbData { pos: npos, experience })
            } else {
                Slot::Live(EntityData::OrbData { pos: npos, experience })
            }
        },
        _ => s,
    }
}

/// Experience addition saturates instead of wrapping.
pub open spec fn sat_add_u32(a: int, b: int) -> int {
    if a + b > u32::MAX {
        u32::MAX as int
    } else {
        a + b
    }
}

/// The player's experience after collecting every orb inside the collection
/// radius among the first `upto` slots, in slot order.
pub open spec fn exp_after_spec(e: int, s: Seq<Slot>, ppos: Vec2i, upto: int) -> int
    decreases upto,
{
    if upto <= 0 {
        e
    } else {
        let prev = exp_after_spec(e, s, ppos, upto - 1);
        if 0 <= upto - 1 < s.len() {
            match s[upto - 1] {
                Slot::Live(EntityData::OrbData { pos, experience }) => {
                    if dist_spec(pos, ppos) < PLAYER_COLLECT_EXP_RANGE {
                        sat_add_u32(prev, experience.exp as int)
                    } else {
                        prev
                    }
                },
                _ => prev,
            }
        } else {
            prev
        }
    }
}

/// A pulled orb never drifts farther from the player and never moves past
/// it, and it is collected exactly when it already stands inside the
/// collection radius -- pulling alone never collects.
pub proof fn lemma_orb_pull(s: Slot, ppos: Vec2i, dt: int)
    requires
        0 <= dt,
        in_world(ppos),
        crate::store::slot_wf(s),
    ensures
        ({
            let r = orb_updated_slot(s, ppos, dt);
            match s {
                Slot::Live(EntityData::OrbData { pos, .. }) => {
                    &&& crate::geom::dist2_spec(
                        crate::store::data_pos(slot_data(r)),
                        ppos,
                    ) <= crate::geom::dist2_spec(pos, ppos)
                    &&& (r is Doomed <==> dist_spec(pos, ppos) < PLAYER_COLLECT_EXP_RANGE)
                },
                _ => r == s,
            }
        }),
{
    match s {
        Slot::Live(EntityData::OrbData { pos, .. }) => {
            vstd::arithmetic::div_mod::lemma_div_pos_is_pos(EXP_SPEED * dt, 1000);
            if dist_spec(pos, ppos) < PLAYER_PULL_EXP_RANGE {
                crate::geom::lemma_move_toward_not_past(pos, ppos, orb_step_spec(dt));
            }
        },
        _ => {},
    }
}

/// Collecting only ever adds experience, and the saturating total stays a
/// `u32`.
pub proof fn lemma_exp_after_bounds(e: int, s: Seq<Slot>, ppos: Vec2i, upto: int)
    requires
        0 <= e <= u32::MAX,
    ensures
        e <= exp_after_spec(e, s, ppos, upto) <= u32::MAX,
    decreases upto,
{
    if upto > 0 {
        lemma_exp_after_bounds(e, s, ppos, upto - 1);
    }
}

/// Progression pass: orbs inside the pull radius drift toward the player at
/// the fixed pull speed; orbs inside the collection radius are collected,
/// their experience added (saturating) to the player's total, and marked for
/// destruction.
pub fn player_exp_pass(store: &mut EntityStore, ph: usize, dt: u64)
    requires
        old(store).wf(),
        ph < old(store).slots@.len(),
        slot_is_live_player(old(store).slots@[ph as int]),
        dt <= MAX_DT_MS,
    ensures
        final(store).wf(),
        final(store).slots@.len() == old(store).slots@.len(),
        ({
            let os = old(store).slots@;
            let ns = final(store).slots@;
            let ppos = crate::store::data_pos(slot_data(os[ph as int]));
            &&& forall|i: int|
                0 <= i < os.len() && i != ph ==> ns[i] == orb_updated_slot(os[i], ppos, dt as int)
            &&& match os[ph as int] {
                Slot::Live(EntityData::PlayerData { pos, vel, player, gun, wave }) => ns[ph as int]
                    == Slot::Live(
                    EntityData::PlayerData {
                        pos,
                        vel,
                        player: (Player {
                            health: player.health,
                            speed: player.speed,
                            exp: exp_after_spec(
                                player.exp as int,
                                os,
                                ppos,
                                os.len() as int,
                            ) as u32,
                            upgrade_level: player.upgrade_level,
                        }),
                        gun,
                        wave,
                    },
                ),
                _ => false,
            }
        }),
{
    let (ppos, pexp): (Vec2i, u32) = match store.slots[ph] {
        Slot::Live(EntityData::PlayerData { pos, player, .. }) => (pos, player.exp),
        _ => {
            proof {
                assert(false);
            }
            (Vec2i { x: 0, y: 0 }, 0)
        },
    };
    let step: i64 = ((EXP_SPEED as u64) * dt / 1000) as i64;
    let n = store.slots.len();
    let mut cur: u32 = pexp;
    let mut i: usize = 0;
    while i < n
        invariant
            store.wf(),
            n == old(store).slots@.len(),
            store.slots@.len() == n,
            ph < n,
            i <= n,
            dt <= MAX_DT_MS,
            ppos == crate::store::data_pos(slot_data(old(store).slots@[ph as int])),
            in_world(ppos),
            0 <= step <= 24_000,
            step == orb_step_spec(dt as int),
            old(store).slots@[ph as int] is Live && slot_data(
                old(store).slots@[ph as int],
            ) is PlayerData,
            cur == exp_after_spec(pexp as int, old(store).slots@, ppos, i as int),
            forall|j: int|
                0 <= j < i && j != ph ==> store.slots@[j] == orb_updated_slot(
                    old(store).slots@[j],
                    ppos,
                    dt as int,
                ),
            forall|j: int| (i <= j < n || j == ph) ==> store.slots@[j] == old(store).slots@[j],
        decreases n - i,
    {
        if i != ph {
            let s = store.slots[i];
            match s {
                Slot::Live(EntityData::OrbData { pos, experience }) => {
                    let dv = dist(pos, ppos);
                    let npos = if dv < PLAYER_PULL_EXP_RANGE {
                        move_toward(pos, ppos, step)
                    } else {
                        pos
                    };
                    if dv < PLAYER_COLLECT_EXP_RANGE {
                        store.slots.set(
                            i,
                            Slot::Doomed(EntityData::OrbData { pos: npos, experience }),
                        );
                        cur = if cur > u32::MAX - experience.exp {
                            u32::MAX
                        } else {
                            cur + experience.exp
                        };
                    } else {
                        store.slots.set(i, Slot::Live(EntityData::OrbData { pos: npos, experience }));
                    }
                },
                _ => {},
            }
        }
        i = i + 1;
    }
    let s = store.slots[ph];
    match s {
        Slot::Live(EntityData::PlayerData { pos, vel, player, gun, wave }) => {
            store.slots.set(
                ph,
                Slot::Live(
                    EntityData::PlayerData {
                        pos,
                        vel,
                        player: Player {
                            health: player.health,
                            speed: player.speed,
                            exp: cur,
                            upgrade_level: player.upgrade_level,
                        },
                        gun,
                        wave,
                    },
                ),
            );
        },
        _ => {
            proof {
                assert(false);
            }
        },
    }
}

/// The default wave spawner attached to a fresh player.
pub fn default_wave() -> (w: EnemyWave)
    ensures
        w == (EnemyWave {
            number: ENEMY_WAVE_NUMBER,
            radius: ENEMY_WAVE_RADIUS,
            timer: (Timer { elapsed_ms: 0u64, period_ms: ENEMY_WAVE_SPAWN_TIME_MS }),
        }),
        w.wf(),
{
    proof {
        assert(1 <= ENEMY_WAVE_NUMBER <= MAX_WAVE_COUNT);
        assert(1 <= ENEMY_WAVE_RADIUS <= COORD_LIMIT);
        assert(1 <= ENEMY_WAVE_SPAWN_TIME_MS <= MAX_PERIOD_MS);
    }
    EnemyWave {
        number: ENEMY_WAVE_NUMBER,
        radius: ENEMY_WAVE_RADIUS,
        timer: Timer::new(ENEMY_WAVE_SPAWN_TIME_MS),
    }
}

} // verus!

//! Damage intents and the event bus that carries them: detection passes queue
//! intents, the combat resolver drains the queue once per tick, in emission
//! order, and applies every intent before death is evaluated.

use crate::enemy::Enemy;
use crate::player::Player;
use crate::store::{slot_data, slot_is_live_player, EntityData, EntityStore, Slot};
use vstd::prelude::*;

verus! {

/// Largest damage amount any attack or projectile may carry.
pub const MAX_DAMAGE: i32 = 1_000_000;

/// A queued intent to damage the player.
#[derive(Clone, Copy, PartialEq, Eq, Structural, Debug)]
pub struct PlayerDamageEvent {
    pub damage: i32,
}

/// A queued intent to damage one enemy, named by its store handle.
#[derive(Clone, Copy, PartialEq, Eq, Structural, Debug)]
pub struct EnemyDamageEvent {
    pub target: usize,
    pub damage: i32,
}

pub open spec fn player_event_wf(e: PlayerDamageEvent) -> bool {
    0 <= e.damage <= MAX_DAMAGE
}

pub open spec fn enemy_event_wf(e: EnemyDamageEvent) -> bool {
    0 <= e.damage <= MAX_DAMAGE
}

/// Total damage queued against the player.
pub open spec fn player_damage_sum(s: Seq<PlayerDamageEvent>) -> int
    decreases s.len(),
{
    if s.len() == 0 {
        0
    } else {
        player_damage_sum(s.drop_last()) + s.last().damage
    }
}

/// Total damage queued against the enemy at handle `target`.
pub open spec fn enemy_damage_to(s: Seq<EnemyDamageEvent>, target: int) -> int
    decreases s.len(),
{
    if s.len() == 0 {
        0
    } else {
        enemy_damage_to(s.drop_last(), target) + if s.last().target as int == target {
            s.last().damage as int
        } else {
            0
        }
    }
}

/// Every queued amount is non-negative.
pub open spec fn player_events_wf(s: Seq<PlayerDamageEvent>) -> bool {
    forall|i: int| 0 <= i < s.len() ==> player_event_wf(#[trigger] s[i])
}

pub open spec fn enemy_events_wf(s: Seq<EnemyDamageEvent>) -> bool {
    forall|i: int| 0 <= i < s.len() ==> enemy_event_wf(#[trigger] s[i])
}

/// Queued damage never sums to a negative value.
pub proof fn lemma_player_damage_sum_nonneg(s: Seq<PlayerDamageEvent>)
    requires
        player_events_wf(s),
    ensures
        player_damage_sum(s) >= 0,
    decreases s.len(),
{
    if s.len() > 0 {
        assert(player_events_wf(s.drop_last()));
        lemma_player_damage_sum_nonneg(s.drop_last());
    }
}

pub proof fn lemma_enemy_damage_to_nonneg(s: Seq<EnemyDamageEvent>, target: int)
    requires
        enemy_events_wf(s),
    ensures
        enemy_damage_to(s, target) >= 0,
    decreases s.len(),
{
    if s.len() > 0 {
        assert(enemy_events_wf(s.drop_last()));
        lemma_enemy_damage_to_nonneg(s.drop_last(), target);
    }
}

/// Health after one hit: subtraction saturating at the bottom of `i32`, so a
/// resolved hit can push health below zero but never wraps around.
pub open spec fn sat_sub_health(h: int, d: int) -> int {
    if h - d < i32::MIN {
        i32::MIN as int
    } else {
        h - d
    }
}

/// One saturating hit, executably.
pub fn damage_health(h: i32, d: i32) -> (r: i32)
    requires
        0 <= d,
    ensures
        r == sat_sub_health(h as int, d as int),
        r <= h,
{
    let wide: i64 = (h as i64) - (d as i64);
    if wide < (i32::MIN as i64) {
        i32::MIN
    } else {
        (wide) as i32
    }
}

/// Health after a whole queue of hits against the player, applied in order.
pub open spec fn apply_player_hits(h: int, s: Seq<PlayerDamageEvent>) -> int
    decreases s.len(),
{
    if s.len() == 0 {
        h
    } else {
        sat_sub_health(apply_player_hits(h, s.drop_last()), s.last().damage as int)
    }
}

/// Health after the hits aimed at handle `target`, applied in order.
pub open spec fn apply_enemy_hits(h: int, s: Seq<EnemyDamageEvent>, target: int) -> int
    decreases s.len(),
{
    if s.len() == 0 {
        h
    } else if s.last().target as int == target {
        sat_sub_health(apply_enemy_hits(h, s.drop_last(), target), s.last().damage as int)
    } else {
        apply_enemy_hits(h, s.drop_last(), target)
    }
}

/// Order does not matter for the final health: applying hits one by one with
/// saturation equals subtracting the total, saturated once.
pub proof fn lemma_apply_player_hits_total(h: int, s: Seq<PlayerDamageEvent>)
    requires
        player_events_wf(s),
        i32::MIN <= h,
    ensures
        apply_player_hits(h, s) == sat_sub_health(h, player_damage_sum(s)),
        apply_player_hits(h, s) <= h,
    decreases s.len(),
{
    if s.len() > 0 {
        assert(player_events_wf(s.drop_last()));
        lemma_apply_player_hits_total(h, s.drop_last());
        lemma_player_damage_sum_nonneg(s.drop_last());
    }
}

pub proof fn lemma_apply_enemy_hits_total(h: int, s: Seq<EnemyDamageEvent>, target: int)
    requires
        enemy_events_wf(s),
        i32::MIN <= h,
    ensures
        apply_enemy_hits(h, s, target) == sat_sub_health(h, enemy_damage_to(s, target)),
        apply_enemy_hits(h, s, target) <= h,
    decreases s.len(),
{
    if s.len() > 0 {
        assert(enemy_events_wf(s.drop_last()));
        lemma_apply_enemy_hits_total(h, s.drop_last(), target);
        lemma_enemy_damage_to_nonneg(s.drop_last(), target);
    }
}

/// A queue none of whose intents name `target` leaves that health alone.
pub proof fn lemma_apply_enemy_hits_untargeted(h: int, s: Seq<EnemyDamageEvent>, target: int)
    requires
        forall|k: int| 0 <= k < s.len() ==> (#[trigger] s[k]).target as int != target,
    ensures
        apply_enemy_hits(h, s, target) == h,
    decreases s.len(),
{
    if s.len() > 0 {
        assert(forall|k: int|
            0 <= k < s.drop_last().len() ==> (#[trigger] s.drop_last()[k]).target as int
                != target);
        lemma_apply_enemy_hits_untargeted(h, s.drop_last(), target);
    }
}

/// An enemy slot after resolution: its health takes every hit aimed at its
/// handle, in emission order. Health may go below zero here; death is
/// evaluated by the scan that follows, never mid-resolution.
pub open spec fn enemy_resolved_slot(s: Slot, i: int, ee: Seq<EnemyDamageEvent>) -> Slot {
    match s {
        Slot::Live(EntityData::EnemyData { pos, vel, enemy, attack }) => Slot::Live(
            EntityData::EnemyData {
                pos,
                vel,
                enemy: (Enemy {
                    health: apply_enemy_hits(enemy.health as int, ee, i) as i32,
                    speed: enemy.speed,
                    distance_to_player: enemy.distance_to_player,
                }),
                attack,
            },
        ),
        _ => s,
    }
}

/// The player slot after resolution: its health takes the whole player
/// queue, in emission order.
pub open spec fn player_resolved_slot(s: Slot, pe: Seq<PlayerDamageEvent>) -> Slot {
    match s {
        Slot::Live(EntityData::PlayerData { pos, vel, player, gun, wave }) => Slot::Live(
            EntityData::PlayerData {
                pos,
                vel,
                player: (Player {
                    health: apply_player_hits(player.health as int, pe) as i32,
                    speed: player.speed,
                    exp: player.exp,
                    upgrade_level: player.upgrade_level,
                }),
                gun,
                wave,
            },
        ),
        _ => s,
    }
}

/// Combat resolver. Runs after every emitting pass of the tick: applies
/// every queued intent to its target's health, summing multiple intents
/// against one target before death is evaluated. An intent whose target is
/// not a live enemy changes nothing.
pub fn resolve_damage_pass(
    store: &mut EntityStore,
    ph: usize,
    player_events: &Vec<PlayerDamageEvent>,
    enemy_events: &Vec<EnemyDamageEvent>,
)
    requires
        old(store).wf(),
        ph < old(store).slots@.len(),
        slot_is_live_player(old(store).slots@[ph as int]),
        player_events_wf(player_events@),
        enemy_events_wf(enemy_events@),
    ensures
        final(store).wf(),
        final(store).slots@.len() == old(store).slots@.len(),
        forall|i: int|
            0 <= i < old(store).slots@.len() && i != ph ==> final(store).slots@[i]
                == enemy_resolved_slot(old(store).slots@[i], i, enemy_events@),
        final(store).slots@[ph as int] == player_resolved_slot(
            old(store).slots@[ph as int],
            player_events@,
        ),
{
    let n = store.slots.len();
    let np = player_events.len();
    let ne = enemy_events.len();

    // Player queue first: read once, fold every hit, write once.
    let mut ph_health: i32 = match store.slots[ph] {
        Slot::Live(EntityData::PlayerData { player, .. }) => player.health,
        _ => {
            proof {
                assert(false);
            }
            0
        },
    };
    let ghost ph_health0 = ph_health as int;
    let mut k: usize = 0;
    while k < np
        invariant
            np == player_events@.len(),
            player_events_wf(player_events@),
            k <= np,
            ph_health == apply_player_hits(ph_health0, player_events@.take(k as int)),
        decreases np - k,
    {
        proof {
            assert(player_events@.take(k as int + 1).drop_last() =~= player_events@.take(
                k as int,
            ));
            assert(player_events@.take(k as int + 1).last() == player_events@[k as int]);
            assert(player_event_wf(player_events@[k as int]));
        }
        ph_health = damage_health(ph_health, player_events[k].damage);
        k = k + 1;
    }
    proof {
        assert(player_events@.take(np as int) =~= player_events@);
    }
    match store.slots[ph] {
        Slot::Live(EntityData::PlayerData { pos, vel, player, gun, wave }) => {
            store.slots.set(
                ph,
                Slot::Live(
                    EntityData::PlayerData {
                        pos,
                        vel,
                        player: Player {
                            health: ph_health,
                            speed: player.speed,
                            exp: player.exp,
                            upgrade_level: player.upgrade_level,
                        },
                        gun,
                        wave,
                    },
                ),
            );
        },
        _ => {
            proof {
                assert(false);
            }
        },
    }

    // Enemy queue: apply each intent to its target as it is drained.
    let mut k: usize = 0;
    proof {
        assert(enemy_events@.take(0) =~= Seq::<EnemyDamageEvent>::empty());
    }
    while k < ne
        invariant
            store.wf(),
            n == old(store).slots@.len(),
            store.slots@.len() == n,
            ph < n,
            ne == enemy_events@.len(),
            enemy_events_wf(enemy_events@),
            k <= ne,
            forall|i: int|
                0 <= i < n && i != ph ==> store.slots@[i] == enemy_resolved_slot(
                    old(store).slots@[i],
                    i,
                    enemy_events@.take(k as int),
                ),
            store.slots@[ph as int] == player_resolved_slot(
                old(store).slots@[ph as int],
                player_events@,
            ),
            slot_data(store.slots@[ph as int]) is PlayerData,
        decreases ne - k,
    {
        let e = enemy_events[k];
        proof {
            assert(enemy_events@.take(k as int + 1).drop_last() =~= enemy_events@.take(k as int));
            assert(enemy_events@.take(k as int + 1).last() == enemy_events@[k as int]);
            assert(enemy_event_wf(enemy_events@[k as int]));
        }
        if e.target < n {
            let s = store.slots[e.target];
            match s {
                Slot::Live(EntityData::EnemyData { pos, vel, enemy, attack }) => {
                    proof {
                        assert(e.target != ph);
                        assert(enemy_events_wf(enemy_events@.take(k as int)));
                        let os = old(store).slots@[e.target as int];
                        match os {
                            Slot::Live(EntityData::EnemyData { enemy: oe, .. }) => {
                                lemma_apply_enemy_hits_total(
                                    oe.health as int,
                                    enemy_events@.take(k as int),
                                    e.target as int,
                                );
                                lemma_enemy_damage_to_nonneg(
                                    enemy_events@.take(k as int),
                                    e.target as int,
                                );
                            },
                            _ => {},
                        }
                    }
                    let nh = damage_health(enemy.health, e.damage);
                    store.slots.set(
                        e.target,
                        Slot::Live(
                            EntityData::EnemyData {
                                pos,
                                vel,
                                enemy: Enemy {
                                    health: nh,
                                    speed: enemy.speed,
                                    distance_to_player: enemy.distance_to_player,
                                },
                                attack,
                            },
                        ),
                    );
                },
                _ => {},
            }
        }
        k = k + 1;
    }
    proof {
        assert(enemy_events@.take(ne as int) =~= enemy_events@);
    }
}

/// The damage event bus. Intents accumulate during the detection passes of a
/// tick and are all consumed by the combat resolver of the same tick: never
/// lost, never applied twice, never carried over.
pub struct DamageBus {
    pub player_events: Vec<PlayerDamageEvent>,
    pub enemy_events: Vec<EnemyDamageEvent>,
}

impl DamageBus {
    pub open spec fn wf(self) -> bool {
        &&& player_events_wf(self.player_events@)
        &&& enemy_events_wf(self.enemy_events@)
    }

    pub open spec fn is_drained(self) -> bool {
        &&& self.player_events@.len() == 0
        &&& self.enemy_events@.len() == 0
    }

    pub fn new() -> (b: DamageBus)
        ensures
            b.wf(),
            b.is_drained(),
    {
        DamageBus { player_events: Vec::new(), enemy_events: Vec::new() }
    }

    /// Queue damage against the player.
    pub fn emit_player(&mut self, e: PlayerDamageEvent)
        requires
            old(self).wf(),
            player_event_wf(e),
        ensures
            final(self).wf(),
            final(self).player_events@ == old(self).player_events@.push(e),
            final(self).enemy_events@ == old(self).enemy_events@,
    {
        self.player_events.push(e);
    }

    /// Queue damage against one enemy.
    pub fn emit_enemy(&mut self, e: EnemyDamageEvent)
        requires
            old(self).wf(),
            enemy_event_wf(e),
        ensures
            final(self).wf(),
            final(self).enemy_events@ == old(self).enemy_events@.push(e),
            final(self).player_events@ == old(self).player_events@,
    {
        self.enemy_events.push(e);
    }

    /// Take everything accumulated since the last drain, in emission order,
    /// leaving the bus empty: intents are consumed exactly once and never
    /// carried over.
    pub fn drain(&mut self) -> (r: (Vec<PlayerDamageEvent>, Vec<EnemyDamageEvent>))
        requires
            old(self).wf(),
        ensures
            final(self).wf(),
            final(self).is_drained(),
            r.0@ == old(self).player_events@,
            r.1@ == old(self).enemy_events@,
    {
        let mut p: Vec<PlayerDamageEvent> = Vec::new();
        let mut e: Vec<EnemyDamageEvent> = Vec::new();
        core::mem::swap(&mut p, &mut self.player_events);
        core::mem::swap(&mut e, &mut self.enemy_events);
        (p, e)
    }

    /// Forget everything queued: the tail of a drain, and the teardown on
    /// leaving gameplay.
    pub fn clear(&mut self)
        ensures
            final(self).wf(),
            final(self).is_drained(),
    {
        self.player_events.clear();
        self.enemy_events.clear();
    }
}

} // verus!

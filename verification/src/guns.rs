//! The player's gun and its projectiles: a cooldown-gated shot at the nearest
//! enemy in range, and bullets whose lifespan counts down and is clamped to a
//! short post-impact window after their first contact.

use crate::damage::{DamageBus, EnemyDamageEvent, MAX_DAMAGE};
use crate::geom::{
    clamp_point, clamp_point_spec, dist, dist2, dist2_spec, dist_spec, in_world,
    lemma_dist_dominates_axes, scaled_div, scaled_div_spec, Vec2i, COORD_LIMIT,
};
use crate::store::{data_pos, slot_data, slot_is_live_player, EntityData, EntityStore, Slot};
use crate::timer::{Countdown, Timer, MAX_DT_MS};
use vstd::prelude::*;

verus! {

/// Total bullet lifespan at launch, milliseconds.
pub const BULLET_LIFETIME_MS: u64 = 1000;

/// Remaining lifespan a bullet is clamped down to after its first contact.
pub const BULLET_LIFETIME_AFTER_IMPACT_MS: u64 = 100;

/// Bullet speed, world units per second.
pub const BULLET_VELOCITY: i64 = 2000;

/// How far in front of the player a bullet spawns, world units.
pub const BULLET_MUZZLE_OFFSET: i64 = 25;

/// The player's gun: shot damage, target-query radius and the repeating
/// attack cooldown.
#[derive(Clone, Copy, PartialEq, Eq, Structural, Debug)]
pub struct Gun {
    pub damage: i32,
    pub range: i64,
    pub attack: Timer,
}

impl Gun {
    pub open spec fn wf(self) -> bool {
        &&& 0 <= self.damage <= MAX_DAMAGE
        &&& 0 <= self.range <= COORD_LIMIT
        &&& self.attack.wf()
    }
}

/// A live projectile: its remaining lifespan and the damage it deals on each
/// contact, fixed at the moment of firing.
#[derive(Clone, Copy, PartialEq, Eq, Structural, Debug)]
pub struct Bullet {
    pub lifespan: Countdown,
    pub damage: i32,
}

impl Bullet {
    pub open spec fn wf(self) -> bool {
        &&& self.lifespan.wf()
        &&& 0 <= self.damage <= MAX_DAMAGE
    }

    /// A freshly fired bullet carrying the gun's damage at firing time.
    pub fn fired(damage: i32) -> (b: Bullet)
        requires
            0 <= damage <= MAX_DAMAGE,
        ensures
            b == (Bullet {
                lifespan: (Countdown { remaining_ms: BULLET_LIFETIME_MS }),
                damage,
            }),
            b.wf(),
    {
        Bullet { lifespan: Countdown::new(BULLET_LIFETIME_MS), damage }
    }
}

/// A contact pair reported by the physics service for the current tick.
#[derive(Clone, Copy, PartialEq, Eq, Structural, Debug)]
pub struct ContactPair {
    pub a: usize,
    pub b: usize,
}

/// Handle `h` names a live enemy in the arena `s`.
pub open spec fn is_live_enemy(s: Seq<Slot>, h: int) -> bool {
    &&& 0 <= h < s.len()
    &&& s[h] is Live
    &&& slot_data(s[h]) is EnemyData
}

/// The candidate the gun aims at: among the query's candidates that are live
/// enemies, the one with the smallest squared distance to the player; of
/// equally near candidates the one reported first wins.
pub open spec fn nearest_target(s: Seq<Slot>, ppos: Vec2i, ts: Seq<usize>) -> Option<usize>
    decreases ts.len(),
{
    if ts.len() == 0 {
        None::<usize>
    } else {
        let prev = nearest_target(s, ppos, ts.drop_last());
        let t = ts.last();
        if is_live_enemy(s, t as int) {
            match prev {
                Option::None => Some(t),
                Option::Some(b) => {
                    if dist2_spec(ppos, data_pos(slot_data(s[t as int]))) < dist2_spec(
                        ppos,
                        data_pos(slot_data(s[b as int])),
                    ) {
                        Some(t)
                    } else {
                        Some(b)
                    }
                },
            }
        } else {
            prev
        }
    }
}

/// The nearest target is a live enemy among the candidates.
pub proof fn lemma_nearest_target_valid(s: Seq<Slot>, ppos: Vec2i, ts: Seq<usize>)
    ensures
        nearest_target(s, ppos, ts) matches Some(b) ==> is_live_enemy(s, b as int)
            && ts.contains(b),
    decreases ts.len(),
{
    if ts.len() > 0 {
        lemma_nearest_target_valid(s, ppos, ts.drop_last());
        match nearest_target(s, ppos, ts.drop_last()) {
            Option::Some(b) => {
                if ts.drop_last().contains(b) {
                    let k = choose|k: int|
                        0 <= k < ts.drop_last().len() && ts.drop_last()[k] == b;
                    assert(ts[k] == b);
                }
            },
            Option::None => {},
        }
        assert(ts[ts.len() - 1] == ts.last());
    }
}

/// The bullet entity created by a shot from `ppos` aimed at `epos`: spawned a
/// muzzle offset in front of the player, flying at the fixed bullet speed,
/// carrying `damage`, with a full lifespan.
pub open spec fn fired_bullet_at(ppos: Vec2i, epos: Vec2i, damage: i32) -> EntityData {
    let d = dist_spec(ppos, epos);
    EntityData::BulletData {
        pos: clamp_point_spec(
            Vec2i {
                x: (ppos.x + scaled_div_spec(epos.x - ppos.x, BULLET_MUZZLE_OFFSET as int, d)) as i64,
                y: (ppos.y + scaled_div_spec(epos.y - ppos.y, BULLET_MUZZLE_OFFSET as int, d)) as i64,
            },
        ),
        vel: (Vec2i {
            x: scaled_div_spec(epos.x - ppos.x, BULLET_VELOCITY as int, d) as i64,
            y: scaled_div_spec(epos.y - ppos.y, BULLET_VELOCITY as int, d) as i64,
        }),
        bullet: (Bullet { lifespan: (Countdown { remaining_ms: BULLET_LIFETIME_MS }), damage }),
    }
}

/// The damage a bullet slot carries.
pub open spec fn bullet_damage_of(d: EntityData) -> i32 {
    match d {
        EntityData::BulletData { bullet, .. } => bullet.damage,
        _ => 0,
    }
}

/// The intents the bullet at slot `i` emits this tick: for every reported
/// contact pair involving the bullet, `damage` against the side that is a
/// live enemy, in report order. One bullet may hit several enemies in one
/// tick, and the same enemy again next tick.
pub open spec fn bullet_emissions(
    s: Seq<Slot>,
    contacts: Seq<ContactPair>,
    i: int,
    damage: i32,
) -> Seq<EnemyDamageEvent>
    decreases contacts.len(),
{
    if contacts.len() == 0 {
        Seq::empty()
    } else {
        bullet_emissions(s, contacts.drop_last(), i, damage) + ({
            let c = contacts.last();
            if c.a == i || c.b == i {
                if is_live_enemy(s, c.a as int) {
                    seq![(EnemyDamageEvent { target: c.a, damage })]
                } else if is_live_enemy(s, c.b as int) {
                    seq![(EnemyDamageEvent { target: c.b, damage })]
                } else {
                    Seq::<EnemyDamageEvent>::empty()
                }
            } else {
                Seq::<EnemyDamageEvent>::empty()
            }
        })
    }
}

/// Every intent a bullet emits names a live enemy of the arena it was
/// emitted against.
pub proof fn lemma_bullet_emissions_targets(
    s: Seq<Slot>,
    contacts: Seq<ContactPair>,
    i: int,
    damage: i32,
)
    ensures
        forall|k: int|
            0 <= k < bullet_emissions(s, contacts, i, damage).len() ==> is_live_enemy(
                s,
                bullet_emissions(s, contacts, i, damage)[k].target as int,
            ),
    decreases contacts.len(),
{
    if contacts.len() > 0 {
        lemma_bullet_emissions_targets(s, contacts.drop_last(), i, damage);
        let pre = bullet_emissions(s, contacts.drop_last(), i, damage);
        let whole = bullet_emissions(s, contacts, i, damage);
        assert forall|k: int| 0 <= k < whole.len() implies is_live_enemy(
            s,
            whole[k].target as int,
        ) by {
            if k < pre.len() {
                assert(whole[k] == pre[k]);
            }
        }
    }
}

/// Every intent the projectile pass emits names a live enemy.
pub proof fn lemma_all_bullet_emissions_targets(
    s: Seq<Slot>,
    contacts: Seq<ContactPair>,
    dt: int,
    upto: int,
)
    ensures
        forall|k: int|
            0 <= k < all_bullet_emissions(s, contacts, dt, upto).len() ==> is_live_enemy(
                s,
                all_bullet_emissions(s, contacts, dt, upto)[k].target as int,
            ),
    decreases upto,
{
    if upto > 0 {
        lemma_all_bullet_emissions_targets(s, contacts, dt, upto - 1);
        if 0 <= upto - 1 < s.len() {
            match s[upto - 1] {
                Slot::Live(EntityData::BulletData { bullet, .. }) => {
                    if !bullet.lifespan.expires(dt) {
                        lemma_bullet_emissions_targets(s, contacts, upto - 1, bullet.damage);
                    }
                },
                _ => {},
            }
        }
        let pre = all_bullet_emissions(s, contacts, dt, upto - 1);
        let whole = all_bullet_emissions(s, contacts, dt, upto);
        assert forall|k: int| 0 <= k < whole.len() implies is_live_enemy(
            s,
            whole[k].target as int,
        ) by {
            if k < pre.len() {
                assert(whole[k] == pre[k]);
            } else {
                if 0 <= upto - 1 < s.len() {
                    match s[upto - 1] {
                        Slot::Live(EntityData::BulletData { bullet, .. }) => {
                            if !bullet.lifespan.expires(dt) {
                                let tail = bullet_emissions(s, contacts, upto - 1, bullet.damage);
                                assert(whole[k] == tail[k - pre.len()]);
                            }
                        },
                        _ => {},
                    }
                }
            }
        }
    }
}

/// A bullet slot after its update. The lifespan ticks down first; an expired
/// bullet is marked for destruction and considers no contacts. Otherwise a
/// contact this tick clamps the remaining lifespan down to the post-impact
/// window -- never lengthening it -- instead of destroying the bullet.
pub open spec fn bullet_updated_slot(s: Slot, hit: bool, dt: int) -> Slot {
    match s {
        Slot::Live(EntityData::BulletData { pos, vel, bullet }) => {
            let ticked = bullet.lifespan.after_tick(dt);
            if bullet.lifespan.expires(dt) {
                Slot::Doomed(
                    EntityData::BulletData {
                        pos,
                        vel,
                        bullet: (Bullet { lifespan: ticked, damage: bullet.damage }),
                    },
                )
            } else {
                let rem = if hit && ticked.remaining_ms > BULLET_LIFETIME_AFTER_IMPACT_MS {
                    BULLET_LIFETIME_AFTER_IMPACT_MS
                } else {
                    ticked.remaining_ms
                };
                Slot::Live(
                    EntityData::BulletData {
                        pos,
                        vel,
                        bullet: (Bullet {
                            lifespan: (Countdown { remaining_ms: rem }),
                            damage: bullet.damage,
                        }),
                    },
                )
            }
        },
        _ => s,
    }
}

/// Everything the live, unexpired bullets among the first `upto` slots emit
/// this tick, in slot order.
pub open spec fn all_bullet_emissions(
    s: Seq<Slot>,
    contacts: Seq<ContactPair>,
    dt: int,
    upto: int,
) -> Seq<EnemyDamageEvent>
    decreases upto,
{
    if upto <= 0 {
        Seq::empty()
    } else {
        all_bullet_emissions(s, contacts, dt, upto - 1) + ({
            if 0 <= upto - 1 < s.len() {
                match s[upto - 1] {
                    Slot::Live(EntityData::BulletData { bullet, .. }) => {
                        if bullet.lifespan.expires(dt) {
                            Seq::<EnemyDamageEvent>::empty()
                        } else {
                            bullet_emissions(s, contacts, upto - 1, bullet.damage)
                        }
                    },
                    _ => Seq::<EnemyDamageEvent>::empty(),
                }
            } else {
                Seq::<EnemyDamageEvent>::empty()
            }
        })
    }
}

/// The remaining lifespan of a bullet slot; zero for anything else.
pub open spec fn bullet_remaining(s: Slot) -> int {
    match s {
        Slot::Live(EntityData::BulletData { bullet, .. }) => bullet.lifespan.remaining_ms as int,
        _ => 0,
    }
}

/// A bullet's lifespan only ever shrinks. A tick takes the elapsed time off
/// it; expiry destroys the bullet; a contact clamps what remains down to the
/// post-impact window -- under no circumstances is it extended.
pub proof fn lemma_bullet_lifespan_monotonic(s: Slot, hit: bool, dt: int)
    requires
        0 <= dt,
        s is Live && slot_data(s) is BulletData,
    ensures
        ({
            let r = bullet_updated_slot(s, hit, dt);
            match s {
                Slot::Live(EntityData::BulletData { bullet, .. }) => {
                    &&& bullet.lifespan.expires(dt) ==> r is Doomed
                    &&& !bullet.lifespan.expires(dt) ==> r is Live && bullet_remaining(r)
                        <= bullet.lifespan.remaining_ms - dt
                },
                _ => true,
            }
        }),
{
}

/// Projectile pass. Every live bullet's lifespan advances; an expired bullet
/// is marked for destruction. A surviving bullet queues its damage against
/// every contacted enemy and, if it contacted at least one, its remaining
/// lifespan is clamped to the post-impact window.
pub fn update_bullets_pass(
    store: &mut EntityStore,
    bus: &mut DamageBus,
    contacts: &Vec<ContactPair>,
    dt: u64,
)
    requires
        old(store).wf(),
        old(bus).wf(),
        dt <= MAX_DT_MS,
    ensures
        final(store).wf(),
        final(bus).wf(),
        final(store).slots@.len() == old(store).slots@.len(),
        forall|i: int|
            0 <= i < old(store).slots@.len() ==> final(store).slots@[i] == bullet_updated_slot(
                old(store).slots@[i],
                bullet_emissions(
                    old(store).slots@,
                    contacts@,
                    i,
                    bullet_damage_of(slot_data(old(store).slots@[i])),
                ).len() > 0,
                dt as int,
            ),
        final(bus).enemy_events@ == old(bus).enemy_events@ + all_bullet_emissions(
            old(store).slots@,
            contacts@,
            dt as int,
            old(store).slots@.len() as int,
        ),
        final(bus).player_events@ == old(bus).player_events@,
{
    let n = store.slots.len();
    let nc = contacts.len();
    let mut i: usize = 0;
    proof {
        assert(bus.enemy_events@ =~= old(bus).enemy_events@ + all_bullet_emissions(
            old(store).slots@,
            contacts@,
            dt as int,
            0,
        ));
    }
    while i < n
        invariant
            store.wf(),
            bus.wf(),
            n == old(store).slots@.len(),
            store.slots@.len() == n,
            nc == contacts@.len(),
            i <= n,
            dt <= MAX_DT_MS,
            forall|j: int|
                0 <= j < i ==> store.slots@[j] == bullet_updated_slot(
                    old(store).slots@[j],
                    bullet_emissions(
                        old(store).slots@,
                        contacts@,
                        j,
                        bullet_damage_of(slot_data(old(store).slots@[j])),
                    ).len() > 0,
                    dt as int,
                ),
            forall|j: int| i <= j < n ==> store.slots@[j] == old(store).slots@[j],
            bus.enemy_events@ == old(bus).enemy_events@ + all_bullet_emissions(
                old(store).slots@,
                contacts@,
                dt as int,
                i as int,
            ),
            bus.player_events@ == old(bus).player_events@,
        decreases n - i,
    {
        let s = store.slots[i];
        match s {
            Slot::Live(EntityData::BulletData { pos, vel, bullet }) => {
                let mut lifespan = bullet.lifespan;
                let expired = lifespan.tick(dt);
                if expired {
                    store.slots.set(
                        i,
                        Slot::Doomed(
                            EntityData::BulletData {
                                pos,
                                vel,
                                bullet: Bullet { lifespan, damage: bullet.damage },
                            },
                        ),
                    );
                    proof {
                        assert(bus.enemy_events@ =~= old(bus).enemy_events@
                            + all_bullet_emissions(
                            old(store).slots@,
                            contacts@,
                            dt as int,
                            i as int + 1,
                        ));
                    }
                } else {
                    let mut hit = false;
                    let mut k: usize = 0;
                    let ghost mid_bus = bus.enemy_events@;
                    proof {
                        assert(contacts@.take(0) =~= Seq::<ContactPair>::empty());
                        assert(bus.enemy_events@ =~= mid_bus + bullet_emissions(
                            old(store).slots@,
                            contacts@.take(0),
                            i as int,
                            bullet.damage,
                        ));
                    }
                    while k < nc
                        invariant
                            store.wf(),
                            bus.wf(),
                            n == old(store).slots@.len(),
                            store.slots@.len() == n,
                            nc == contacts@.len(),
                            i < n,
                            k <= nc,
                            0 <= bullet.damage <= MAX_DAMAGE,
                            mid_bus == old(bus).enemy_events@ + all_bullet_emissions(
                                old(store).slots@,
                                contacts@,
                                dt as int,
                                i as int,
                            ),
                            forall|j: int| i <= j < n ==> store.slots@[j] == old(store).slots@[j],
                            forall|j: int|
                                0 <= j < i ==> store.slots@[j] == bullet_updated_slot(
                                    old(store).slots@[j],
                                    bullet_emissions(
                                        old(store).slots@,
                                        contacts@,
                                        j,
                                        bullet_damage_of(slot_data(old(store).slots@[j])),
                                    ).len() > 0,
                                    dt as int,
                                ),
                            bus.enemy_events@ == mid_bus + bullet_emissions(
                                old(store).slots@,
                                contacts@.take(k as int),
                                i as int,
                                bullet.damage,
                            ),
                            bus.player_events@ == old(bus).player_events@,
                            hit == (bullet_emissions(
                                old(store).slots@,
                                contacts@.take(k as int),
                                i as int,
                                bullet.damage,
                            ).len() > 0),
                        decreases nc - k,
                    {
                        let c = contacts[k];
                        proof {
                            assert(contacts@.take(k as int + 1).drop_last() =~= contacts@.take(
                                k as int,
                            ));
                            assert(contacts@.take(k as int + 1).last() == contacts@[k as int]);
                        }
                        if c.a == i || c.b == i {
                            let mut emitted = false;
                            if c.a < n {
                                match store.slots[c.a] {
                                    Slot::Live(EntityData::EnemyData { .. }) => {
                                        proof {
                                            assert(store.slots@[c.a as int] == bullet_updated_slot(
                                                old(store).slots@[c.a as int],
                                                bullet_emissions(
                                                    old(store).slots@,
                                                    contacts@,
                                                    c.a as int,
                                                    bullet_damage_of(
                                                        slot_data(old(store).slots@[c.a as int]),
                                                    ),
                                                ).len() > 0,
                                                dt as int,
                                            ) || store.slots@[c.a as int] == old(
                                                store,
                                            ).slots@[c.a as int]);
                                            assert(is_live_enemy(old(store).slots@, c.a as int));
                                        }
                                        bus.emit_enemy(
                                            EnemyDamageEvent { target: c.a, damage: bullet.damage },
                                        );
                                        emitted = true;
                                    },
                                    _ => {},
                                }
                            }
                            if !emitted {
                                proof {
                                    assert(!is_live_enemy(old(store).slots@, c.a as int));
                                }
                                if c.b < n {
                                    match store.slots[c.b] {
                                        Slot::Live(EntityData::EnemyData { .. }) => {
                                            proof {
                                                assert(is_live_enemy(
                                                    old(store).slots@,
                                                    c.b as int,
                                                ));
                                            }
                                            bus.emit_enemy(
                                                EnemyDamageEvent {
                                                    target: c.b,
                                                    damage: bullet.damage,
                                                },
                                            );
                                            emitted = true;
                                        },
                                        _ => {},
                                    }
                                }
                            }
                            if emitted {
                                hit = true;
                            }
                        }
                        k = k + 1;
                    }
                    proof {
                        assert(contacts@.take(nc as int) =~= contacts@);
                    }
                    let mut nl = lifespan;
                    if hit {
                        nl.clamp_to(BULLET_LIFETIME_AFTER_IMPACT_MS);
                    }
                    store.slots.set(
                        i,
                        Slot::Live(
                            EntityData::BulletData {
                                pos,
                                vel,
                                bullet: Bullet { lifespan: nl, damage: bullet.damage },
                            },
                        ),
                    );
                    proof {
                        assert(bus.enemy_events@ =~= old(bus).enemy_events@
                            + all_bullet_emissions(
                            old(store).slots@,
                            contacts@,
                            dt as int,
                            i as int + 1,
                        ));
                    }
                }
            },
            _ => {
                proof {
                    assert(bus.enemy_events@ =~= old(bus).enemy_events@ + all_bullet_emissions(
                        old(store).slots@,
                        contacts@,
                        dt as int,
                        i as int + 1,
                    ));
                }
            },
        }
        i = i + 1;
    }
}

/// The player slot after the weapon pass ticked the gun's cooldown.
pub open spec fn gun_ticked_slot(s: Slot, dt: int) -> Slot {
    match s {
        Slot::Live(EntityData::PlayerData { pos, vel, player, gun, wave }) => Slot::Live(
            EntityData::PlayerData {
                pos,
                vel,
                player,
                gun: (Gun {
                    damage: gun.damage,
                    range: gun.range,
                    attack: gun.attack.after_tick(dt),
                }),
                wave,
            },
        ),
        _ => s,
    }
}

/// Weapon pass. The gun's cooldown advances; when it elapses, the shot aims
/// at the nearest live enemy among the spatial query's candidates and one
/// bullet spawns; with no candidate, or a candidate at distance zero, no
/// bullet spawns, and the shot opportunity is consumed either way.
pub fn player_shoot_pass(store: &mut EntityStore, ph: usize, targets: &Vec<usize>, dt: u64)
    requires
        old(store).wf(),
        ph < old(store).slots@.len(),
        slot_is_live_player(old(store).slots@[ph as int]),
        dt <= MAX_DT_MS,
    ensures
        final(store).wf(),
        forall|i: int|
            0 <= i < old(store).slots@.len() && i != ph ==> final(store).slots@[i] == old(
                store,
            ).slots@[i],
        final(store).slots@[ph as int] == gun_ticked_slot(old(store).slots@[ph as int], dt as int),
        ({
            let os = old(store).slots@;
            let ns = final(store).slots@;
            match os[ph as int] {
                Slot::Live(EntityData::PlayerData { pos, gun, .. }) => {
                    match nearest_target(os, pos, targets@) {
                        Option::Some(j) => {
                            if gun.attack.finishes(dt as int) && dist_spec(
                                pos,
                                data_pos(slot_data(os[j as int])),
                            ) > 0 {
                                &&& ns.len() == os.len() + 1
                                &&& ns[os.len() as int] == Slot::Live(
                                    fired_bullet_at(
                                        pos,
                                        data_pos(slot_data(os[j as int])),
                                        gun.damage,
                                    ),
                                )
                            } else {
                                ns.len() == os.len()
                            }
                        },
                        Option::None => ns.len() == os.len(),
                    }
                },
                _ => false,
            }
        }),
{
    let s = store.slots[ph];
    match s {
        Slot::Live(EntityData::PlayerData { pos, vel, player, gun, wave }) => {
            let mut timer = gun.attack;
            let finished = timer.tick(dt);
            let ngun = Gun { damage: gun.damage, range: gun.range, attack: timer };
            store.slots.set(
                ph,
                Slot::Live(EntityData::PlayerData { pos, vel, player, gun: ngun, wave }),
            );
            if finished {
                let n = store.slots.len();
                let nt = targets.len();
                let mut best: Option<usize> = None;
                let mut best_d2: u64 = 0;
                let mut k: usize = 0;
                proof {
                    assert(targets@.take(0) =~= Seq::<usize>::empty());
                }
                while k < nt
                    invariant
                        store.wf(),
                        nt == targets@.len(),
                        n == store.slots@.len(),
                        n == old(store).slots@.len(),
                        ph < n,
                        k <= nt,
                        in_world(pos),
                        forall|i: int|
                            0 <= i < n && i != ph ==> store.slots@[i] == old(store).slots@[i],
                        store.slots@[ph as int] is Live && slot_data(
                            store.slots@[ph as int],
                        ) is PlayerData,
                        old(store).slots@[ph as int] is Live && slot_data(
                            old(store).slots@[ph as int],
                        ) is PlayerData,
                        best == nearest_target(old(store).slots@, pos, targets@.take(k as int)),
                        best matches Some(b) ==> is_live_enemy(old(store).slots@, b as int)
                            && best_d2 == dist2_spec(
                            pos,
                            data_pos(slot_data(old(store).slots@[b as int])),
                        ),
                    decreases nt - k,
                {
                    let t = targets[k];
                    proof {
                        assert(targets@.take(k as int + 1).drop_last() =~= targets@.take(k as int));
                        assert(targets@.take(k as int + 1).last() == targets@[k as int]);
                    }
                    if t < n {
                        let cand = store.slots[t];
                        match cand {
                            Slot::Live(EntityData::EnemyData { pos: epos, .. }) => {
                                proof {
                                    assert(t != ph);
                                    assert(is_live_enemy(old(store).slots@, t as int));
                                }
                                let d2 = dist2(pos, epos);
                                let better: bool = match best {
                                    Option::None => true,
                                    Option::Some(_) => d2 < best_d2,
                                };
                                if better {
                                    best = Some(t);
                                    best_d2 = d2;
                                }
                            },
                            _ => {
                                proof {
                                    if t != ph {
                                        assert(!is_live_enemy(old(store).slots@, t as int));
                                    } else {
                                        assert(!is_live_enemy(old(store).slots@, t as int));
                                    }
                                }
                            },
                        }
                    } else {
                        proof {
                            assert(!is_live_enemy(old(store).slots@, t as int));
                        }
                    }
                    k = k + 1;
                }
                proof {
                    assert(targets@.take(nt as int) =~= targets@);
                }
                match best {
                    Some(j) => {
                        let epos: Vec2i = match store.slots[j] {
                            Slot::Live(EntityData::EnemyData { pos: epos, .. }) => epos,
                            _ => {
                                proof {
                                    assert(false);
                                }
                                Vec2i { x: 0, y: 0 }
                            },
                        };
                        let dv = dist(pos, epos);
                        if dv > 0 {
                            proof {
                                lemma_dist_dominates_axes(pos, epos);
                                assert({
                                    &&& -0x4000_0000_0000_0000 <= ((epos.x - pos.x) as int) * (
                                    BULLET_VELOCITY as int) <= 0x4000_0000_0000_0000
                                    &&& -0x4000_0000_0000_0000 <= ((epos.y - pos.y) as int) * (
                                    BULLET_VELOCITY as int) <= 0x4000_0000_0000_0000
                                    &&& -0x4000_0000_0000_0000 <= ((epos.x - pos.x) as int) * (
                                    BULLET_MUZZLE_OFFSET as int) <= 0x4000_0000_0000_0000
                                    &&& -0x4000_0000_0000_0000 <= ((epos.y - pos.y) as int) * (
                                    BULLET_MUZZLE_OFFSET as int) <= 0x4000_0000_0000_0000
                                }) by (nonlinear_arith)
                                    requires
                                        -0x4000_0000 <= epos.x - pos.x <= 0x4000_0000,
                                        -0x4000_0000 <= epos.y - pos.y <= 0x4000_0000,
                                        BULLET_VELOCITY == 2000i64,
                                        BULLET_MUZZLE_OFFSET == 25i64,
                                ;
                            }
                            let ox = scaled_div(epos.x - pos.x, BULLET_MUZZLE_OFFSET, dv);
                            let oy = scaled_div(epos.y - pos.y, BULLET_MUZZLE_OFFSET, dv);
                            let bpos = clamp_point(Vec2i { x: pos.x + ox, y: pos.y + oy });
                            let bvx = scaled_div(epos.x - pos.x, BULLET_VELOCITY, dv);
                            let bvy = scaled_div(epos.y - pos.y, BULLET_VELOCITY, dv);
                            proof {
                                crate::geom::lemma_scaled_div_bounded(
                                    (epos.x - pos.x) as int,
                                    BULLET_MUZZLE_OFFSET as int,
                                    dv as int,
                                );
                                crate::geom::lemma_scaled_div_bounded(
                                    (epos.y - pos.y) as int,
                                    BULLET_MUZZLE_OFFSET as int,
                                    dv as int,
                                );
                            }
                            let bd = EntityData::BulletData {
                                pos: bpos,
                                vel: Vec2i { x: bvx, y: bvy },
                                bullet: Bullet::fired(gun.damage),
                            };
                            store.spawn(bd);
                        }
                    },
                    None => {},
                }
            }
        },
        _ => {
            proof {
                assert(false);
            }
        },
    }
}

} // verus!

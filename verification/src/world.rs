//! The whole simulation: the top-level game-state machine, the world it
//! gates, the explicit commands the UI collaborators send, and the tick that
//! runs the gameplay subsystems in their required order.

use crate::damage::{
    lemma_apply_enemy_hits_total, lemma_apply_player_hits_total, lemma_enemy_damage_to_nonneg,
    lemma_player_damage_sum_nonneg, player_damage_sum, resolve_damage_pass, sat_sub_health,
    DamageBus, MAX_DAMAGE,
};
use crate::enemy::{
    attack_emissions, enemy_attack_pass, enemy_despawn_pass, enemy_movement_pass,
    enemy_spawn_pass, moved_enemy_slot, EnemyWave, Experience,
};
use crate::geom::{clamp_point, clamp_point_spec, Vec2i};
use crate::guns::{player_shoot_pass, update_bullets_pass, ContactPair, Gun};
use crate::player::{
    player_exp_pass, player_movement_pass, Player, PlayerUpgradeEvent, ENEMY_WAVE_NUMBER,
    ENEMY_WAVE_RADIUS, ENEMY_WAVE_SPAWN_TIME_MS, MIN_ATTACK_PERIOD_MS, PLAYER_ATTACK_PERIOD_MS,
    PLAYER_GUN_DAMAGE, PLAYER_GUN_RANGE, PLAYER_HEALTH, PLAYER_SPEED,
    UPGRADE_ATTACK_PERIOD_DELTA_MS, UPGRADE_DAMAGE_DELTA,
};
use crate::store::{
    apply_moves_spec, data_pos, lemma_apply_moves_same_but_pos, lemma_present_count_zero,
    present_count, same_but_pos, slot_data, slot_is_live_player, slot_present, with_pos_spec,
    EntityData, EntityMove, EntityStore, Slot,
};
use crate::timer::{Timer, MAX_DT_MS};
use vstd::prelude::*;

verus! {

/// X coordinate a fresh player spawns at.
pub const PLAYER_SPAWN_X: i64 = 0;

/// Y coordinate a fresh player spawns at.
pub const PLAYER_SPAWN_Y: i64 = 10;

/// The top-level game state. Gameplay subsystems run only in `InGame`;
/// `MainMenu` and `LevelUp` pause them. Transitions are explicit commands or
/// the player's death, never arbitrary.
#[derive(Clone, Copy, PartialEq, Eq, Structural, Debug, Default)]
pub enum GameState {
    #[default]
    MainMenu,
    InGame,
    LevelUp,
}

/// Everything the external collaborators hand the simulation for one tick:
/// the elapsed time, the physics service's integrated positions and contact
/// pairs, the spatial query's candidates for the gun, and the input
/// collaborator's movement direction (read as a sign per axis).
pub struct TickInput {
    pub dt_ms: u64,
    pub moves: Vec<EntityMove>,
    pub contacts: Vec<ContactPair>,
    pub shot_targets: Vec<usize>,
    pub move_x: i64,
    pub move_y: i64,
}

/// The player entity of a fresh run, at the spawn point: full health, the
/// starting gun and the default wave spawner, both cooldowns at zero.
pub open spec fn fresh_player_at(p: Vec2i) -> EntityData {
    EntityData::PlayerData {
        pos: p,
        vel: (Vec2i { x: 0i64, y: 0i64 }),
        player: (Player {
            health: PLAYER_HEALTH,
            speed: PLAYER_SPEED,
            exp: 0u32,
            upgrade_level: 0u32,
        }),
        gun: (Gun {
            damage: PLAYER_GUN_DAMAGE,
            range: PLAYER_GUN_RANGE,
            attack: (Timer { elapsed_ms: 0u64, period_ms: PLAYER_ATTACK_PERIOD_MS }),
        }),
        wave: (EnemyWave {
            number: ENEMY_WAVE_NUMBER,
            radius: ENEMY_WAVE_RADIUS,
            timer: (Timer { elapsed_ms: 0u64, period_ms: ENEMY_WAVE_SPAWN_TIME_MS }),
        }),
    }
}

/// The health of an entity; zero for one that has none.
pub open spec fn data_health(d: EntityData) -> int {
    match d {
        EntityData::PlayerData { player, .. } => player.health as int,
        EntityData::EnemyData { enemy, .. } => enemy.health as int,
        _ => 0,
    }
}

/// The health of whatever a slot holds; zero for a free slot.
pub open spec fn slot_health(s: Slot) -> int {
    match s {
        Slot::Free => 0,
        Slot::Live(d) => data_health(d),
        Slot::Doomed(d) => data_health(d),
    }
}

/// The live player's health, through the world's player handle.
pub open spec fn player_health_of(w: World) -> int {
    match w.player {
        Option::Some(ph) => {
            if 0 <= ph < w.store.slots@.len() {
                slot_health(w.store.slots@[ph as int])
            } else {
                0
            }
        },
        Option::None => 0,
    }
}

/// The damage aimed at the player during one tick of the given input: what
/// the enemies whose cooldowns elapse within reach emit, with every distance
/// measured after the physics positions of this tick are applied and the
/// movement pass has refreshed it.
pub open spec fn player_damage_this_tick(w: World, input: TickInput) -> int {
    match w.player {
        Option::Some(ph) => {
            let s1 = apply_moves_spec(w.store.slots@, input.moves@);
            let ppos = data_pos(slot_data(s1[ph as int]));
            let s2 = Seq::new(
                s1.len(),
                |i: int| moved_enemy_slot(s1[i], ppos, input.dt_ms as int),
            );
            player_damage_sum(attack_emissions(s2, input.dt_ms as int))
        },
        Option::None => 0,
    }
}

/// Pointwise bookkeeping between two stages of one tick: within the first
/// `upto` slots, health, presence, liveness and being the player are all
/// untouched by the stage.
pub open spec fn preserves_entities(prev: Seq<Slot>, cur: Seq<Slot>, upto: int) -> bool {
    forall|i: int|
        0 <= i < upto ==> {
            &&& slot_health(#[trigger] cur[i]) == slot_health(prev[i])
            &&& (slot_present(cur[i]) <==> slot_present(prev[i]))
            &&& (cur[i] is Live <==> prev[i] is Live)
            &&& (slot_present(prev[i]) ==> ((slot_data(cur[i]) is PlayerData) <==> (slot_data(
                prev[i],
            ) is PlayerData)))
        }
}

/// The whole simulation state: the game state, the entity arena, the damage
/// bus (always drained between ticks) and the handle of the live player.
pub struct World {
    pub state: GameState,
    pub store: EntityStore,
    pub bus: DamageBus,
    pub player: Option<usize>,
}

impl World {
    /// The invariant between ticks: the store and bus are well-formed, the
    /// bus carries nothing over, no entity is left marked for destruction,
    /// the menu has no gameplay entities, and during gameplay (running or
    /// paused) exactly one live player exists.
    pub open spec fn wf(self) -> bool {
        &&& self.store.wf()
        &&& self.bus.wf()
        &&& self.bus.is_drained()
        &&& forall|i: int|
            0 <= i < self.store.slots@.len() ==> !(#[trigger] self.store.slots@[i] is Doomed)
        &&& match self.state {
            GameState::MainMenu => self.player is None && forall|i: int|
                0 <= i < self.store.slots@.len() ==> !slot_present(
                    #[trigger] self.store.slots@[i],
                ),
            _ => match self.player {
                Option::Some(ph) => ph < self.store.slots@.len() && slot_is_live_player(
                    self.store.slots@[ph as int],
                ) && forall|i: int|
                    0 <= i < self.store.slots@.len() && i != ph && slot_present(
                        #[trigger] self.store.slots@[i],
                    ) ==> !(slot_data(self.store.slots@[i]) is PlayerData),
                Option::None => false,
            },
        }
    }

    /// A fresh simulation: at the menu, with nothing spawned.
    pub fn new() -> (w: World)
        ensures
            w.wf(),
            w.state == GameState::MainMenu,
            w.store.slots@.len() == 0,
    {
        World {
            state: GameState::MainMenu,
            store: EntityStore::new(),
            bus: DamageBus::new(),
            player: None,
        }
    }

    /// The start command from the menu: into gameplay, with a fresh player
    /// created at the spawn point. In any other state the command does
    /// nothing.
    pub fn start_game(&mut self)
        requires
            old(self).wf(),
        ensures
            final(self).wf(),
            old(self).state != GameState::MainMenu ==> *final(self) == *old(self),
            old(self).state == GameState::MainMenu ==> {
                &&& final(self).state == GameState::InGame
                &&& final(self).store.slots@ == old(self).store.slots@.push(
                    Slot::Live(
                        fresh_player_at(Vec2i { x: PLAYER_SPAWN_X, y: PLAYER_SPAWN_Y }),
                    ),
                )
                &&& final(self).player == Some(old(self).store.slots@.len() as usize)
            },
    {
        match self.state {
            GameState::MainMenu => {
                let p = EntityData::PlayerData {
                    pos: Vec2i { x: PLAYER_SPAWN_X, y: PLAYER_SPAWN_Y },
                    vel: Vec2i { x: 0, y: 0 },
                    player: Player::spawned(),
                    gun: crate::player::default_gun(),
                    wave: crate::player::default_wave(),
                };
                let h = self.store.spawn(p);
                self.player = Some(h);
                self.state = GameState::InGame;
            },
            _ => {},
        }
    }

    /// The level-up trigger from the progression collaborator: gameplay
    /// pauses into the level-up screen; nothing is torn down. In any other
    /// state the command does nothing.
    pub fn open_level_up(&mut self)
        requires
            old(self).wf(),
        ensures
            final(self).wf(),
            old(self).state != GameState::InGame ==> *final(self) == *old(self),
            old(self).state == GameState::InGame ==> *final(self) == (World {
                state: GameState::LevelUp,
                ..*old(self)
            }),
    {
        match self.state {
            GameState::InGame => {
                self.state = GameState::LevelUp;
            },
            _ => {},
        }
    }

    /// The chosen-upgrade event from the level-up screen: the stat change is
    /// applied to the player's gun -- more damage, or a shorter attack
    /// cooldown (restarted, and never below the floor) -- the player's
    /// upgrade level rises, and play resumes. In any other state the command
    /// does nothing.
    pub fn choose_upgrade(&mut self, upgrade: PlayerUpgradeEvent)
        requires
            old(self).wf(),
        ensures
            final(self).wf(),
            old(self).state != GameState::LevelUp ==> *final(self) == *old(self),
            old(self).state == GameState::LevelUp ==> {
                &&& final(self).state == GameState::InGame
                &&& final(self).player == old(self).player
                &&& final(self).store.slots@.len() == old(self).store.slots@.len()
                &&& forall|i: int|
                    0 <= i < old(self).store.slots@.len() && i != old(self).player->0
                        ==> final(self).store.slots@[i] == old(self).store.slots@[i]
                &&& final(self).store.slots@[old(self).player->0 as int] == upgraded_player_slot(
                    old(self).store.slots@[old(self).player->0 as int],
                    upgrade,
                )
            },
    {
        match self.state {
            GameState::LevelUp => {
                let ph = match self.player {
                    Some(ph) => ph,
                    None => {
                        proof {
                            assert(false);
                        }
                        0
                    },
                };
                let s = self.store.slots[ph];
                match s {
                    Slot::Live(EntityData::PlayerData { pos, vel, player, gun, wave }) => {
                        let ngun = match upgrade {
                            PlayerUpgradeEvent::AttackDamage => Gun {
                                damage: if gun.damage > MAX_DAMAGE - UPGRADE_DAMAGE_DELTA {
                                    MAX_DAMAGE
                                } else {
                                    gun.damage + UPGRADE_DAMAGE_DELTA
                                },
                                range: gun.range,
                                attack: gun.attack,
                            },
                            PlayerUpgradeEvent::AttackSpeed => Gun {
                                damage: gun.damage,
                                range: gun.range,
                                attack: Timer::new(
                                    if gun.attack.period_ms
                                        < MIN_ATTACK_PERIOD_MS + UPGRADE_ATTACK_PERIOD_DELTA_MS {
                                        MIN_ATTACK_PERIOD_MS
                                    } else {
                                        gun.attack.period_ms - UPGRADE_ATTACK_PERIOD_DELTA_MS
                                    },
                                ),
                            },
                        };
                        let nplayer = Player {
                            health: player.health,
                            speed: player.speed,
                            exp: player.exp,
                            upgrade_level: if player.upgrade_level == u32::MAX {
                                u32::MAX
                            } else {
                                player.upgrade_level + 1
                            },
                        };
                        self.store.slots.set(
                            ph,
                            Slot::Live(
                                EntityData::PlayerData {
                                    pos,
                                    vel,
                                    player: nplayer,
                                    gun: ngun,
                                    wave,
                                },
                            ),
                        );
                        self.state = GameState::InGame;
                    },
                    _ => {
                        proof {
                            assert(false);
                        }
                    },
                }
            },
            _ => {},
        }
    }

    /// An experience orb dropped by an external collaborator (on an enemy's
    /// death): inserted during gameplay at the given position, clamped into
    /// the world; in any other state the command does nothing.
    pub fn spawn_orb(&mut self, pos: Vec2i, exp: u32)
        requires
            old(self).wf(),
        ensures
            final(self).wf(),
            old(self).state != GameState::InGame ==> *final(self) == *old(self),
            old(self).state == GameState::InGame ==> {
                &&& final(self).state == old(self).state
                &&& final(self).player == old(self).player
                &&& final(self).store.slots@ == old(self).store.slots@.push(
                    Slot::Live(
                        EntityData::OrbData {
                            pos: clamp_point_spec(pos),
                            experience: (Experience { exp }),
                        },
                    ),
                )
            },
    {
        match self.state {
            GameState::InGame => {
                let p = clamp_point(pos);
                self.store.spawn(EntityData::OrbData { pos: p, experience: Experience { exp } });
            },
            _ => {},
        }
    }

    /// One simulation tick, advanced by the externally supplied elapsed
    /// time. Outside `InGame` nothing runs and nothing changes. In gameplay,
    /// in order: the physics positions are applied; enemies pursue and then
    /// evaluate their attacks; the player's movement input becomes velocity;
    /// bullets age, hit and clamp; orbs are pulled and collected; the wave
    /// spawner and the gun fire (new entities join at the end of the tick);
    /// all queued damage is resolved; dead enemies are swept; and if the
    /// player's health is gone the run ends -- back to the menu with every
    /// gameplay entity destroyed. No entity's health ever rises during a
    /// tick: there are no heal intents.
    #[verifier::rlimit(60)]
    pub fn tick(&mut self, input: &TickInput)
        requires
            old(self).wf(),
            input.dt_ms <= MAX_DT_MS,
        ensures
            final(self).wf(),
            old(self).state != GameState::InGame ==> *final(self) == *old(self),
            old(self).state == GameState::InGame ==> ({
                let dmg = player_damage_this_tick(*old(self), *input);
                let dead = player_health_of(*old(self)) <= dmg;
                &&& final(self).state == (if dead {
                    GameState::MainMenu
                } else {
                    GameState::InGame
                })
                &&& dead ==> present_count(final(self).store.slots@) == 0
                    && final(self).player is None
                &&& !dead ==> final(self).player == old(self).player && player_health_of(
                    *final(self),
                ) == player_health_of(*old(self)) - dmg
                &&& final(self).bus.is_drained()
                &&& forall|i: int|
                    0 <= i < old(self).store.slots@.len() && slot_present(
                        #[trigger] old(self).store.slots@[i],
                    ) && slot_present(final(self).store.slots@[i]) ==> slot_health(
                        final(self).store.slots@[i],
                    ) <= slot_health(old(self).store.slots@[i])
                &&& !dead ==> ({
                    let hp = old(self).player->0 as int;
                    let s1 = apply_moves_spec(old(self).store.slots@, input.moves@);
                    let ppos = data_pos(slot_data(s1[hp]));
                    let n0 = old(self).store.slots@.len() as int;
                    match old(self).store.slots@[hp] {
                        Slot::Live(EntityData::PlayerData { player: p0, gun: g0, wave: w0, .. }) => {
                            let spawned = if w0.timer.finishes(input.dt_ms as int) {
                                w0.number as int
                            } else {
                                0
                            };
                            &&& (match final(self).store.slots@[hp] {
                                Slot::Live(
                                    EntityData::PlayerData { pos, player: p1, gun: g1, wave: w1, .. },
                                ) => {
                                    &&& pos == ppos
                                    &&& p1.speed == p0.speed
                                    &&& p1.upgrade_level == p0.upgrade_level
                                    &&& p1.exp >= p0.exp
                                    &&& g1.damage == g0.damage
                                    &&& g1.range == g0.range
                                    &&& g1.attack == g0.attack.after_tick(input.dt_ms as int)
                                    &&& w1.number == w0.number
                                    &&& w1.radius == w0.radius
                                    &&& w1.timer == w0.timer.after_tick(input.dt_ms as int)
                                },
                                _ => false,
                            })
                            &&& n0 + spawned <= final(self).store.slots@.len() <= n0 + spawned + 1
                            &&& (forall|k: int|
                                0 <= k < spawned ==> final(self).store.slots@[n0 + k]
                                    == Slot::Live(
                                    crate::enemy::spawned_enemy_at(
                                        crate::enemy::wave_spawn_pos_spec(
                                            ppos,
                                            k,
                                            w0.number as int,
                                            w0.radius as int,
                                        ),
                                    ),
                                ))
                            &&& (final(self).store.slots@.len() > n0 + spawned
                                ==> final(self).store.slots@[n0 + spawned] is Live && slot_data(
                                final(self).store.slots@[n0 + spawned],
                            ) is BulletData)
                        },
                        _ => false,
                    }
                })
            }),
    {
        let is_ingame = match self.state {
            GameState::InGame => true,
            _ => false,
        };
        if !is_ingame {
            return ;
        }
        let ph = match self.player {
            Some(ph) => ph,
            None => {
                proof {
                    assert(false);
                }
                0
            },
        };
        proof {
            assert(old(self).player == Some(ph));
        }
        let dt = input.dt_ms;
        let ghost s0 = self.store.slots@;
        let ghost n0 = s0.len() as int;
        let ghost h0 = data_health(slot_data(s0[ph as int]));

        // Read pass: the physics service's integrated positions.
        self.store.apply_moves(&input.moves);
        let ghost s1 = self.store.slots@;
        proof {
            lemma_apply_moves_same_but_pos(s0, input.moves@);
            assert forall|i: int| 0 <= i < n0 implies {
                &&& slot_health(#[trigger] s1[i]) == slot_health(s0[i])
                &&& (slot_present(s1[i]) <==> slot_present(s0[i]))
                &&& (s1[i] is Live <==> s0[i] is Live)
                &&& (slot_present(s0[i]) ==> ((slot_data(s1[i]) is PlayerData) <==> (slot_data(
                    s0[i],
                ) is PlayerData)))
                &&& (s1[i] is Live && slot_data(s1[i]) is PlayerData ==> slot_data(s1[i])
                    == with_pos_spec(slot_data(s0[i]), data_pos(slot_data(s1[i]))))
            } by {
                assert(same_but_pos(s0[i], s1[i]));
                if s0[i] is Live && !(s0[i] == s1[i]) {
                    match slot_data(s0[i]) {
                        EntityData::PlayerData { .. } => {},
                        EntityData::EnemyData { .. } => {},
                        EntityData::BulletData { .. } => {},
                        EntityData::OrbData { .. } => {},
                    }
                }
            }
            assert(preserves_entities(s0, s1, n0));
            assert(slot_is_live_player(s1[ph as int]));
            assert(data_health(slot_data(s1[ph as int])) == h0);
        }
        let ghost ppos1 = data_pos(slot_data(s1[ph as int]));

        // Movement before attack-range evaluation.
        enemy_movement_pass(&mut self.store, ph, dt);
        let ghost s2 = self.store.slots@;
        proof {
            assert forall|i: int| 0 <= i < n0 implies {
                &&& slot_health(#[trigger] s2[i]) == slot_health(s1[i])
                &&& (slot_present(s2[i]) <==> slot_present(s1[i]))
                &&& (s2[i] is Live <==> s1[i] is Live)
                &&& (slot_present(s1[i]) ==> ((slot_data(s2[i]) is PlayerData) <==> (slot_data(
                    s1[i],
                ) is PlayerData)))
            } by {
                assert(s2[i] == moved_enemy_slot(s1[i], ppos1, dt as int));
            }
            assert(preserves_entities(s1, s2, n0));
            assert(s2[ph as int] == s1[ph as int]);
        }

        // Attack evaluation: damage intents against the player are queued.
        enemy_attack_pass(&mut self.store, &mut self.bus, dt);
        let ghost s3 = self.store.slots@;
        let ghost pe = self.bus.player_events@;
        proof {
            assert(pe =~= attack_emissions(s2, dt as int));
            assert forall|i: int| 0 <= i < n0 implies {
                &&& slot_health(#[trigger] s3[i]) == slot_health(s2[i])
                &&& (slot_present(s3[i]) <==> slot_present(s2[i]))
                &&& (s3[i] is Live <==> s2[i] is Live)
                &&& (slot_present(s2[i]) ==> ((slot_data(s3[i]) is PlayerData) <==> (slot_data(
                    s2[i],
                ) is PlayerData)))
            } by {
                assert(s3[i] == crate::enemy::attack_ticked_slot(s2[i], dt as int));
            }
            assert(preserves_entities(s2, s3, n0));
            assert(s3[ph as int] == s2[ph as int]);
        }

        // The input collaborator's movement vector becomes the player's
        // velocity.
        player_movement_pass(&mut self.store, ph, input.move_x, input.move_y, dt);
        let ghost s4 = self.store.slots@;
        proof {
            assert(s4[ph as int] == crate::player::moved_player_slot(
                s3[ph as int],
                input.move_x as int,
                input.move_y as int,
                dt as int,
            ));
            assert(slot_is_live_player(s4[ph as int]));
            assert(data_health(slot_data(s4[ph as int])) == h0);
            assert(preserves_entities(s3, s4, n0));
        }

        // Projectiles: lifespans, contacts, damage intents, clamping.
        update_bullets_pass(&mut self.store, &mut self.bus, &input.contacts, dt);
        let ghost s5 = self.store.slots@;
        proof {
            assert(self.bus.player_events@ == pe);
            assert(self.bus.enemy_events@ =~= crate::guns::all_bullet_emissions(
                s4,
                input.contacts@,
                dt as int,
                n0,
            ));
            assert forall|i: int| 0 <= i < n0 implies {
                &&& slot_health(#[trigger] s5[i]) == slot_health(s4[i])
                &&& (slot_present(s5[i]) <==> slot_present(s4[i]))
                &&& (slot_present(s4[i]) ==> ((slot_data(s5[i]) is PlayerData) <==> (slot_data(
                    s4[i],
                ) is PlayerData)))
            } by {
                assert(s5[i] == crate::guns::bullet_updated_slot(
                    s4[i],
                    crate::guns::bullet_emissions(
                        s4,
                        input.contacts@,
                        i,
                        crate::guns::bullet_damage_of(slot_data(s4[i])),
                    ).len() > 0,
                    dt as int,
                ));
            }
            assert(s5[ph as int] == s4[ph as int]);
        }

        // Progression: orbs are pulled and collected.
        player_exp_pass(&mut self.store, ph, dt);
        let ghost s6 = self.store.slots@;
        proof {
            assert forall|i: int| 0 <= i < n0 implies {
                &&& slot_health(#[trigger] s6[i]) == slot_health(s5[i])
                &&& (slot_present(s6[i]) <==> slot_present(s5[i]))
                &&& (slot_present(s5[i]) ==> ((slot_data(s6[i]) is PlayerData) <==> (slot_data(
                    s5[i],
                ) is PlayerData)))
            } by {
                if i != ph {
                    assert(s6[i] == crate::player::orb_updated_slot(
                        s5[i],
                        data_pos(slot_data(s5[ph as int])),
                        dt as int,
                    ));
                }
            }
            assert(slot_is_live_player(s6[ph as int]));
            assert(data_health(slot_data(s6[ph as int])) == h0);
        }

        // The wave spawner; new enemies join the arena at the end of the
        // tick's observations.
        enemy_spawn_pass(&mut self.store, ph, dt);
        let ghost s7 = self.store.slots@;
        proof {
            assert forall|i: int| 0 <= i < n0 && i != ph implies #[trigger] s7[i] == s6[i] by {}
            assert(s7[ph as int] == crate::enemy::wave_ticked_slot(s6[ph as int], dt as int));
            assert(slot_is_live_player(s7[ph as int]));
            assert(data_health(slot_data(s7[ph as int])) == h0);
            assert forall|i: int| s6.len() <= i < s7.len() implies #[trigger] s7[i] is Live
                && slot_data(s7[i]) is EnemyData by {
                let n = i - s6.len();
                match s6[ph as int] {
                    Slot::Live(EntityData::PlayerData { pos, wave, .. }) => {
                        assert(s7[s6.len() + n] == Slot::Live(
                            crate::enemy::spawned_enemy_at(
                                crate::enemy::wave_spawn_pos_spec(
                                    pos,
                                    n,
                                    wave.number as int,
                                    wave.radius as int,
                                ),
                            ),
                        ));
                    },
                    _ => {},
                }
            }
        }

        // The gun: one shot opportunity, at the nearest queried enemy.
        player_shoot_pass(&mut self.store, ph, &input.shot_targets, dt);
        let ghost s8 = self.store.slots@;
        proof {
            assert(self.bus.player_events@ == pe);
            assert forall|i: int| 0 <= i < s7.len() && i != ph implies #[trigger] s8[i]
                == s7[i] by {}
            assert(s8[ph as int] == crate::guns::gun_ticked_slot(s7[ph as int], dt as int));
            assert(slot_is_live_player(s8[ph as int]));
            assert(data_health(slot_data(s8[ph as int])) == h0);
            assert(forall|i: int|
                s7.len() <= i < s8.len() ==> #[trigger] s8[i] is Live && slot_data(
                    s8[i],
                ) is BulletData);
        }

        // All emission done: drain the bus exactly once and resolve.
        let ghost ee = self.bus.enemy_events@;
        let drained = self.bus.drain();
        resolve_damage_pass(&mut self.store, ph, &drained.0, &drained.1);
        let ghost s9 = self.store.slots@;
        proof {
            assert(s9[ph as int] == crate::damage::player_resolved_slot(s8[ph as int], pe));
            lemma_apply_player_hits_total(h0, pe);
            lemma_player_damage_sum_nonneg(pe);
            assert(slot_is_live_player(s9[ph as int]));
            assert(data_health(slot_data(s9[ph as int])) == sat_sub_health(
                h0,
                player_damage_sum(pe),
            ));
            assert forall|i: int| 0 <= i < s8.len() && i != ph implies {
                &&& slot_health(#[trigger] s9[i]) <= slot_health(s8[i])
                &&& (slot_present(s9[i]) <==> slot_present(s8[i]))
                &&& (slot_present(s8[i]) ==> ((slot_data(s9[i]) is PlayerData) <==> (slot_data(
                    s8[i],
                ) is PlayerData)))
            } by {
                assert(s9[i] == crate::damage::enemy_resolved_slot(s8[i], i, ee));
                match s8[i] {
                    Slot::Live(EntityData::EnemyData { enemy: oe, .. }) => {
                        lemma_apply_enemy_hits_total(oe.health as int, ee, i);
                        lemma_enemy_damage_to_nonneg(ee, i);
                    },
                    _ => {},
                }
            }
        }

        // Death scan: resolution first, destruction deferred to the commit.
        enemy_despawn_pass(&mut self.store);
        let ghost s10 = self.store.slots@;
        proof {
            assert forall|i: int| 0 <= i < s9.len() implies {
                &&& slot_health(#[trigger] s10[i]) == slot_health(s9[i])
                &&& (slot_present(s10[i]) <==> slot_present(s9[i]))
                &&& (slot_present(s9[i]) ==> ((slot_data(s10[i]) is PlayerData) <==> (slot_data(
                    s9[i],
                ) is PlayerData)))
            } by {
                assert(s10[i] == crate::enemy::death_marked_slot(s9[i]));
            }
            assert(slot_is_live_player(s10[ph as int]));
        }

        // The distinguished condition: the player's health is gone.
        let player_dead = match self.store.slots[ph] {
            Slot::Live(EntityData::PlayerData { player, .. }) => player.health <= 0,
            _ => {
                proof {
                    assert(false);
                }
                false
            },
        };
        proof {
            // The emitted intents are exactly what the tick's inputs say.
            let sm1 = apply_moves_spec(s0, input.moves@);
            assert(sm1 == s1);
            let sm2 = Seq::new(sm1.len(), |i: int| moved_enemy_slot(sm1[i], ppos1, dt as int));
            assert(sm2 =~= s2);
            assert(player_damage_this_tick(*old(self), *input) == player_damage_sum(pe));
            assert(player_health_of(*old(self)) == h0);
            assert(player_dead <==> sat_sub_health(h0, player_damage_sum(pe)) <= 0);
            assert(player_dead <==> h0 <= player_damage_sum(pe));
        }
        if player_dead {
            // Leaving gameplay tears every gameplay entity down.
            self.store.mark_all_destroyed();
            self.state = GameState::MainMenu;
            self.player = None;
        }

        // The single commit point: deferred destruction takes effect.
        self.store.commit();
        proof {
            let sf = self.store.slots@;
            if player_dead {
                assert forall|i: int| 0 <= i < sf.len() implies !slot_present(
                    #[trigger] sf[i],
                ) by {}
                lemma_present_count_zero(sf);
            } else {
                assert(slot_is_live_player(sf[ph as int]));
                assert(data_health(slot_data(sf[ph as int])) == h0 - player_damage_sum(pe));
                // exactly one player, as the invariant asks
                assert forall|i: int|
                    0 <= i < sf.len() && i != ph && slot_present(#[trigger] sf[i]) implies !(
                slot_data(sf[i]) is PlayerData) by {
                    assert(sf[i] == s10[i] || (s10[i] is Doomed && sf[i] is Free));
                    if i < n0 {
                        assert(slot_present(s0[i]) ==> !(slot_data(s0[i]) is PlayerData));
                    }
                }
                // the player slot, the spawned wave and the possible bullet,
                // exactly
                assert(s1.len() == n0 && s2.len() == n0 && s3.len() == n0 && s4.len() == n0
                    && s5.len() == n0 && s6.len() == n0);
                let d0 = slot_data(s0[ph as int]);
                match d0 {
                    EntityData::PlayerData { player: p0, gun: g0, wave: w0, .. } => {
                        assert(slot_data(s1[ph as int]) == with_pos_spec(d0, ppos1));
                        assert(s3[ph as int] == s1[ph as int]);
                        match s4[ph as int] {
                            Slot::Live(
                                EntityData::PlayerData {
                                    pos: pos4,
                                    player: p4,
                                    gun: g4,
                                    wave: w4,
                                    ..
                                },
                            ) => {
                                assert(pos4 == ppos1 && p4 == p0 && g4 == g0 && w4 == w0);
                                assert(data_pos(slot_data(s5[ph as int])) == ppos1);
                                crate::player::lemma_exp_after_bounds(p4.exp as int, s5, ppos1, n0);
                                match s6[ph as int] {
                                    Slot::Live(
                                        EntityData::PlayerData {
                                            pos: pos6,
                                            player: p6,
                                            gun: g6,
                                            wave: w6,
                                            ..
                                        },
                                    ) => {
                                        assert(pos6 == ppos1 && g6 == g0 && w6 == w0);
                                        assert(p6.health == p0.health && p6.speed == p0.speed
                                            && p6.upgrade_level == p0.upgrade_level && p6.exp
                                            >= p0.exp);
                                        let spawnedc: int = if w0.timer.finishes(dt as int) {
                                            w0.number as int
                                        } else {
                                            0
                                        };
                                        assert(s7.len() == n0 + spawnedc);
                                        assert(s8.len() == s7.len() || s8.len() == s7.len() + 1);
                                        assert(s9.len() == s8.len() && s10.len() == s8.len()
                                            && sf.len() == s8.len());
                                        // nothing this tick aimed at an entity
                                        // spawned this tick
                                        assert(ee =~= crate::guns::all_bullet_emissions(
                                            s4,
                                            input.contacts@,
                                            dt as int,
                                            n0,
                                        ));
                                        crate::guns::lemma_all_bullet_emissions_targets(
                                            s4,
                                            input.contacts@,
                                            dt as int,
                                            n0,
                                        );
                                        assert forall|i: int|
                                            n0 <= i < s8.len() && i != ph implies s9[i]
                                            == s8[i] by {
                                            assert(s9[i] == crate::damage::enemy_resolved_slot(
                                                s8[i],
                                                i,
                                                ee,
                                            ));
                                            match s8[i] {
                                                Slot::Live(
                                                    EntityData::EnemyData { enemy: oe, .. },
                                                ) => {
                                                    assert forall|k: int|
                                                        0 <= k < ee.len() implies (
                                                    #[trigger] ee[k]).target as int != i by {
                                                        assert(crate::guns::is_live_enemy(
                                                            s4,
                                                            ee[k].target as int,
                                                        ));
                                                    }
                                                    crate::damage::lemma_apply_enemy_hits_untargeted(
                                                        oe.health as int,
                                                        ee,
                                                        i,
                                                    );
                                                },
                                                _ => {},
                                            }
                                        }
                                        assert forall|k: int| 0 <= k < spawnedc implies sf[n0 + k]
                                            == Slot::Live(
                                            crate::enemy::spawned_enemy_at(
                                                crate::enemy::wave_spawn_pos_spec(
                                                    ppos1,
                                                    k,
                                                    w0.number as int,
                                                    w0.radius as int,
                                                ),
                                            ),
                                        ) by {
                                            let i = n0 + k;
                                            assert(s7[i] == Slot::Live(
                                                crate::enemy::spawned_enemy_at(
                                                    crate::enemy::wave_spawn_pos_spec(
                                                        pos6,
                                                        k,
                                                        w6.number as int,
                                                        w6.radius as int,
                                                    ),
                                                ),
                                            ));
                                            assert(s8[i] == s7[i]);
                                            assert(s9[i] == s8[i]);
                                            assert(s10[i] == crate::enemy::death_marked_slot(
                                                s9[i],
                                            ));
                                            assert(s10[i] == s9[i]);
                                            assert(sf[i] == s10[i]);
                                        }
                                        if s8.len() > n0 + spawnedc {
                                            let i = n0 + spawnedc;
                                            assert(s8[i] is Live && slot_data(
                                                s8[i],
                                            ) is BulletData);
                                            assert(s9[i] == crate::damage::enemy_resolved_slot(
                                                s8[i],
                                                i,
                                                ee,
                                            ));
                                            assert(s9[i] == s8[i]);
                                            assert(s10[i] == crate::enemy::death_marked_slot(
                                                s9[i],
                                            ));
                                            assert(sf[i] == s10[i]);
                                            assert(sf[i] is Live && slot_data(
                                                sf[i],
                                            ) is BulletData);
                                        }
                                        // the final player slot, field by field
                                        assert(s7[ph as int] == crate::enemy::wave_ticked_slot(
                                            s6[ph as int],
                                            dt as int,
                                        ));
                                        assert(s8[ph as int] == crate::guns::gun_ticked_slot(
                                            s7[ph as int],
                                            dt as int,
                                        ));
                                        assert(s9[ph as int]
                                            == crate::damage::player_resolved_slot(
                                            s8[ph as int],
                                            pe,
                                        ));
                                        assert(s10[ph as int] == crate::enemy::death_marked_slot(
                                            s9[ph as int],
                                        ));
                                        assert(sf[ph as int] == s10[ph as int]);
                                    },
                                    _ => {
                                        assert(false);
                                    },
                                }
                            },
                            _ => {
                                assert(false);
                            },
                        }
                    },
                    _ => {
                        assert(false);
                    },
                }
            }
            // health never rises
            assert forall|i: int|
                0 <= i < n0 && slot_present(s0[i]) && slot_present(
                    #[trigger] self.store.slots@[i],
                ) implies slot_health(self.store.slots@[i]) <= slot_health(s0[i]) by {
                assert(slot_health(s10[i]) <= slot_health(s0[i]));
                assert(self.store.slots@[i] == s10[i] || self.store.slots@[i] is Free);
            }
        }
    }
}

/// The upgrade options the level-up screen offers, derived from fixed
/// constants: a faster attack, or a harder-hitting one.
pub fn upgrade_options() -> (opts: Vec<PlayerUpgradeEvent>)
    ensures
        opts@ == seq![PlayerUpgradeEvent::AttackSpeed, PlayerUpgradeEvent::AttackDamage],
{
    let mut opts: Vec<PlayerUpgradeEvent> = Vec::new();
    opts.push(PlayerUpgradeEvent::AttackSpeed);
    opts.push(PlayerUpgradeEvent::AttackDamage);
    proof {
        assert(opts@ =~= seq![PlayerUpgradeEvent::AttackSpeed, PlayerUpgradeEvent::AttackDamage]);
    }
    opts
}

/// The player slot after an upgrade: the attack-damage upgrade raises the
/// gun's damage by its delta (saturating at the damage cap); the
/// attack-speed upgrade shortens the cooldown period by its delta (never
/// below the floor) and restarts the cooldown. Either way the player's
/// upgrade level rises by one.
pub open spec fn upgraded_player_slot(s: Slot, upgrade: PlayerUpgradeEvent) -> Slot {
    match s {
        Slot::Live(EntityData::PlayerData { pos, vel, player, gun, wave }) => {
            let ngun = match upgrade {
                PlayerUpgradeEvent::AttackDamage => Gun {
                    damage: if gun.damage > MAX_DAMAGE - UPGRADE_DAMAGE_DELTA {
                        MAX_DAMAGE
                    } else {
                        (gun.damage + UPGRADE_DAMAGE_DELTA) as i32
                    },
                    range: gun.range,
                    attack: gun.attack,
                },
                PlayerUpgradeEvent::AttackSpeed => Gun {
                    damage: gun.damage,
                    range: gun.range,
                    attack: (Timer {
                        elapsed_ms: 0u64,
                        period_ms: if gun.attack.period_ms < MIN_ATTACK_PERIOD_MS
                            + UPGRADE_ATTACK_PERIOD_DELTA_MS {
                            MIN_ATTACK_PERIOD_MS
                        } else {
                            (gun.attack.period_ms - UPGRADE_ATTACK_PERIOD_DELTA_MS) as u64
                        },
                    }),
                },
            };
            Slot::Live(
                EntityData::PlayerData {
                    pos,
                    vel,
                    player: (Player {
                        health: player.health,
                        speed: player.speed,
                        exp: player.exp,
                        upgrade_level: if player.upgrade_level == u32::MAX {
                            u32::MAX
                        } else {
                            (player.upgrade_level + 1) as u32
                        },
                    }),
                    gun: ngun,
                    wave,
                },
            )
        },
        _ => s,
    }
}

} // verus!

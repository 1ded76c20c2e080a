//! The entity store: an arena of gameplay entities keyed by stable handles.
//! A tick may mark entities for destruction, but every pass of that tick
//! still observes them; destruction takes effect at a single commit point at
//! tick end, so no pass ever iterates a set another pass is deleting.

use crate::enemy::{Enemy, EnemyAttack, EnemyWave, Experience};
use crate::geom::{in_world, Vec2i};
use crate::guns::{Bullet, Gun};
use crate::player::Player;
use vstd::prelude::*;

verus! {

/// The components of one entity, tagged by what it is. The tag is what a
/// teardown pass selects on when gameplay ends.
#[derive(Clone, Copy, PartialEq, Eq, Structural, Debug)]
pub enum EntityData {
    PlayerData { pos: Vec2i, vel: Vec2i, player: Player, gun: Gun, wave: EnemyWave },
    EnemyData { pos: Vec2i, vel: Vec2i, enemy: Enemy, attack: EnemyAttack },
    BulletData { pos: Vec2i, vel: Vec2i, bullet: Bullet },
    OrbData { pos: Vec2i, experience: Experience },
}

pub open spec fn data_wf(d: EntityData) -> bool {
    match d {
        EntityData::PlayerData { pos, vel, player, gun, wave } => {
            &&& in_world(pos)
            &&& player.wf()
            &&& gun.wf()
            &&& wave.wf()
        },
        EntityData::EnemyData { pos, vel, enemy, attack } => {
            &&& in_world(pos)
            &&& enemy.wf()
            &&& attack.wf()
        },
        EntityData::BulletData { pos, vel, bullet } => {
            &&& in_world(pos)
            &&& bullet.wf()
        },
        EntityData::OrbData { pos, experience } => in_world(pos),
    }
}

/// The position of an entity.
pub open spec fn data_pos(d: EntityData) -> Vec2i {
    match d {
        EntityData::PlayerData { pos, .. } => pos,
        EntityData::EnemyData { pos, .. } => pos,
        EntityData::BulletData { pos, .. } => pos,
        EntityData::OrbData { pos, .. } => pos,
    }
}

/// The same entity at another position.
pub open spec fn with_pos_spec(d: EntityData, p: Vec2i) -> EntityData {
    match d {
        EntityData::PlayerData { pos, vel, player, gun, wave } => EntityData::PlayerData {
            pos: p,
            vel,
            player,
            gun,
            wave,
        },
        EntityData::EnemyData { pos, vel, enemy, attack } => EntityData::EnemyData {
            pos: p,
            vel,
            enemy,
            attack,
        },
        EntityData::BulletData { pos, vel, bullet } => EntityData::BulletData {
            pos: p,
            vel,
            bullet,
        },
        EntityData::OrbData { pos, experience } => EntityData::OrbData { pos: p, experience },
    }
}

/// The same entity at another position, executably.
pub fn with_pos(d: EntityData, p: Vec2i) -> (r: EntityData)
    ensures
        r == with_pos_spec(d, p),
{
    match d {
        EntityData::PlayerData { pos: _, vel, player, gun, wave } => EntityData::PlayerData {
            pos: p,
            vel,
            player,
            gun,
            wave,
        },
        EntityData::EnemyData { pos: _, vel, enemy, attack } => EntityData::EnemyData {
            pos: p,
            vel,
            enemy,
            attack,
        },
        EntityData::BulletData { pos: _, vel, bullet } => EntityData::BulletData {
            pos: p,
            vel,
            bullet,
        },
        EntityData::OrbData { pos: _, experience } => EntityData::OrbData { pos: p, experience },
    }
}

/// The entity is position-integrated by the physics service. Orbs are not:
/// the progression pass moves them itself.
pub open spec fn physics_driven(d: EntityData) -> bool {
    !(d is OrbData)
}

/// One arena slot. A handle stays valid for the whole tick that marks it:
/// `Doomed` keeps the data visible until the commit point frees the slot.
#[derive(Clone, Copy, PartialEq, Eq, Structural, Debug)]
pub enum Slot {
    Free,
    Live(EntityData),
    Doomed(EntityData),
}

pub open spec fn slot_wf(s: Slot) -> bool {
    match s {
        Slot::Free => true,
        Slot::Live(d) => data_wf(d),
        Slot::Doomed(d) => data_wf(d),
    }
}

/// The slot holds an entity, marked for destruction or not.
pub open spec fn slot_present(s: Slot) -> bool {
    s is Live || s is Doomed
}

/// The entity a present slot holds.
pub open spec fn slot_data(s: Slot) -> EntityData
    recommends
        slot_present(s),
{
    match s {
        Slot::Free => vstd::pervasive::arbitrary(),
        Slot::Live(d) => d,
        Slot::Doomed(d) => d,
    }
}

pub open spec fn slot_is_live_player(s: Slot) -> bool {
    s is Live && slot_data(s) is PlayerData
}

/// Entities present in a prefix of the arena, marked or not.
pub open spec fn present_count(s: Seq<Slot>) -> nat
    decreases s.len(),
{
    if s.len() == 0 {
        0
    } else {
        present_count(s.drop_last()) + if slot_present(s.last()) {
            1nat
        } else {
            0nat
        }
    }
}

/// A fully free arena has a zero count.
pub proof fn lemma_present_count_zero(s: Seq<Slot>)
    requires
        forall|i: int| 0 <= i < s.len() ==> !slot_present(#[trigger] s[i]),
    ensures
        present_count(s) == 0,
    decreases s.len(),
{
    if s.len() > 0 {
        lemma_present_count_zero(s.drop_last());
    }
}

/// A position update reported by the physics service for one entity.
#[derive(Clone, Copy, PartialEq, Eq, Structural, Debug)]
pub struct EntityMove {
    pub handle: usize,
    pub pos: Vec2i,
}

/// One reported position applied: only a live, physics-driven entity moves,
/// and the reported position is clamped into the world bounds.
pub open spec fn apply_move_spec(s: Seq<Slot>, m: EntityMove) -> Seq<Slot> {
    if m.handle < s.len() && s[m.handle as int] is Live && physics_driven(
        slot_data(s[m.handle as int]),
    ) {
        s.update(
            m.handle as int,
            Slot::Live(
                with_pos_spec(
                    slot_data(s[m.handle as int]),
                    crate::geom::clamp_point_spec(m.pos),
                ),
            ),
        )
    } else {
        s
    }
}

/// All reported positions applied in report order; a later report for the
/// same handle wins.
pub open spec fn apply_moves_spec(s: Seq<Slot>, ms: Seq<EntityMove>) -> Seq<Slot>
    decreases ms.len(),
{
    if ms.len() == 0 {
        s
    } else {
        apply_move_spec(apply_moves_spec(s, ms.drop_last()), ms.last())
    }
}

/// `b` is `a` with at most its position changed.
pub open spec fn same_but_pos(a: Slot, b: Slot) -> bool {
    ||| a == b
    ||| (a is Live && b is Live && slot_data(b) == with_pos_spec(
        slot_data(a),
        data_pos(slot_data(b)),
    ))
}

/// Replacing a position twice is replacing it once.
pub proof fn lemma_with_pos_compose(d: EntityData, p: Vec2i, q: Vec2i)
    ensures
        with_pos_spec(with_pos_spec(d, p), q) == with_pos_spec(d, q),
        data_pos(with_pos_spec(d, p)) == p,
{
}

/// The physics reports change positions and nothing else.
pub proof fn lemma_apply_moves_same_but_pos(s: Seq<Slot>, ms: Seq<EntityMove>)
    ensures
        apply_moves_spec(s, ms).len() == s.len(),
        forall|i: int|
            0 <= i < s.len() ==> same_but_pos(s[i], #[trigger] apply_moves_spec(s, ms)[i]),
    decreases ms.len(),
{
    if ms.len() > 0 {
        lemma_apply_moves_same_but_pos(s, ms.drop_last());
        let mid = apply_moves_spec(s, ms.drop_last());
        let m = ms.last();
        let fin = apply_moves_spec(s, ms);
        assert forall|i: int| 0 <= i < s.len() implies same_but_pos(s[i], #[trigger] fin[i]) by {
            assert(same_but_pos(s[i], mid[i]));
            if i == m.handle && m.handle < mid.len() && mid[m.handle as int] is Live
                && physics_driven(slot_data(mid[m.handle as int])) {
                let np = crate::geom::clamp_point_spec(m.pos);
                assert(fin[i] == Slot::Live(with_pos_spec(slot_data(mid[i]), np)));
                lemma_with_pos_compose(slot_data(mid[i]), data_pos(slot_data(mid[i])), np);
                if s[i] == mid[i] {
                    lemma_with_pos_compose(slot_data(s[i]), np, np);
                } else {
                    lemma_with_pos_compose(
                        slot_data(s[i]),
                        data_pos(slot_data(mid[i])),
                        np,
                    );
                }
            } else {
                assert(fin[i] == mid[i]);
            }
        }
    }
}

/// The arena. Handles are indices; a slot, once spawned into, is never
/// reused, so a handle never silently changes meaning.
pub struct EntityStore {
    pub slots: Vec<Slot>,
}

impl EntityStore {
    pub open spec fn wf(self) -> bool {
        forall|i: int| 0 <= i < self.slots@.len() ==> slot_wf(#[trigger] self.slots@[i])
    }

    pub fn new() -> (s: EntityStore)
        ensures
            s.wf(),
            s.slots@.len() == 0,
    {
        EntityStore { slots: Vec::new() }
    }

    /// Insert a fully formed entity; returns its handle.
    pub fn spawn(&mut self, d: EntityData) -> (h: usize)
        requires
            old(self).wf(),
            data_wf(d),
        ensures
            final(self).wf(),
            final(self).slots@ == old(self).slots@.push(Slot::Live(d)),
            h == old(self).slots@.len(),
    {
        let h = self.slots.len();
        self.slots.push(Slot::Live(d));
        h
    }

    /// Apply the physics service's position reports for this tick: the read
    /// pass every other pass builds on, run before any of them.
    pub fn apply_moves(&mut self, moves: &Vec<EntityMove>)
        requires
            old(self).wf(),
        ensures
            final(self).wf(),
            final(self).slots@ == apply_moves_spec(old(self).slots@, moves@),
            final(self).slots@.len() == old(self).slots@.len(),
    {
        let n = moves.len();
        let mut k: usize = 0;
        proof {
            assert(moves@.take(0) =~= Seq::<EntityMove>::empty());
        }
        while k < n
            invariant
                n == moves@.len(),
                k <= n,
                old(self).wf(),
                self.slots@ == apply_moves_spec(old(self).slots@, moves@.take(k as int)),
                self.slots@.len() == old(self).slots@.len(),
                forall|i: int| 0 <= i < self.slots@.len() ==> slot_wf(#[trigger] self.slots@[i]),
            decreases n - k,
        {
            let m = moves[k];
            if m.handle < self.slots.len() {
                let s = self.slots[m.handle];
                match s {
                    Slot::Live(d) => {
                        match d {
                            EntityData::OrbData { .. } => {},
                            _ => {
                                let np = crate::geom::clamp_point(m.pos);
                                self.slots.set(m.handle, Slot::Live(with_pos(d, np)));
                            },
                        }
                    },
                    _ => {},
                }
            }
            proof {
                assert(moves@.take(k as int + 1).drop_last() =~= moves@.take(k as int));
                assert(moves@.take(k as int + 1).last() == moves@[k as int]);
            }
            k = k + 1;
        }
        proof {
            assert(moves@.take(n as int) =~= moves@);
        }
    }

    /// Mark one entity for destruction; it stays observable until the commit
    /// point. Marking a free or already marked slot changes nothing.
    pub fn mark_destroyed(&mut self, h: usize)
        requires
            old(self).wf(),
        ensures
            final(self).wf(),
            final(self).slots@.len() == old(self).slots@.len(),
            forall|i: int|
                0 <= i < old(self).slots@.len() && i != h ==> final(self).slots@[i] == old(
                    self,
                ).slots@[i],
            h < old(self).slots@.len() ==> final(self).slots@[h as int] == (
            match old(self).slots@[h as int] {
                Slot::Live(d) => Slot::Doomed(d),
                s => s,
            }),
    {
        if h < self.slots.len() {
            let s = self.slots[h];
            match s {
                Slot::Live(d) => {
                    self.slots.set(h, Slot::Doomed(d));
                },
                _ => {},
            }
        }
    }

    /// Mark every entity for destruction: the teardown of a gameplay session
    /// on leaving `InGame`, selected by the entity tag alone.
    pub fn mark_all_destroyed(&mut self)
        requires
            old(self).wf(),
        ensures
            final(self).wf(),
            final(self).slots@.len() == old(self).slots@.len(),
            forall|i: int|
                0 <= i < old(self).slots@.len() ==> final(self).slots@[i] == (
                match old(self).slots@[i] {
                    Slot::Live(d) => Slot::Doomed(d),
                    s => s,
                }),
    {
        let n = self.slots.len();
        let mut i: usize = 0;
        while i < n
            invariant
                self.slots@.len() == n,
                n == old(self).slots@.len(),
                old(self).wf(),
                i <= n,
                forall|j: int|
                    0 <= j < i ==> self.slots@[j] == (
                    match old(self).slots@[j] {
                        Slot::Live(d) => Slot::Doomed(d),
                        s => s,
                    }),
                forall|j: int| i <= j < n ==> self.slots@[j] == old(self).slots@[j],
            decreases n - i,
        {
            let s = self.slots[i];
            match s {
                Slot::Live(d) => {
                    self.slots.set(i, Slot::Doomed(d));
                },
                _ => {},
            }
            i = i + 1;
        }
    }

    /// The commit point at tick end: every marked entity is freed, everything
    /// else is untouched.
    pub fn commit(&mut self)
        requires
            old(self).wf(),
        ensures
            final(self).wf(),
            final(self).slots@.len() == old(self).slots@.len(),
            forall|i: int|
                0 <= i < old(self).slots@.len() ==> final(self).slots@[i] == (
                match old(self).slots@[i] {
                    Slot::Doomed(d) => Slot::Free,
                    s => s,
                }),
    {
        let n = self.slots.len();
        let mut i: usize = 0;
        while i < n
            invariant
                self.slots@.len() == n,
                n == old(self).slots@.len(),
                old(self).wf(),
                i <= n,
                forall|j: int|
                    0 <= j < i ==> self.slots@[j] == (
                    match old(self).slots@[j] {
                        Slot::Doomed(d) => Slot::Free,
                        s => s,
                    }),
                forall|j: int| i <= j < n ==> self.slots@[j] == old(self).slots@[j],
            decreases n - i,
        {
            let s = self.slots[i];
            match s {
                Slot::Doomed(_) => {
                    self.slots.set(i, Slot::Free);
                },
                _ => {},
            }
            i = i + 1;
        }
    }

    /// The handles of every entity still present: what a renderer keeps its
    /// sprites in sync with.
    pub fn present_handles(&self) -> (hs: Vec<usize>)
        ensures
            forall|k: int| 0 <= k < hs@.len() ==> #[trigger] hs@[k] < self.slots@.len(),
            forall|k: int|
                0 <= k < hs@.len() ==> slot_present(self.slots@[#[trigger] hs@[k] as int]),
            forall|i: int|
                0 <= i < self.slots@.len() && slot_present(#[trigger] self.slots@[i]) ==> hs@.contains(
                    i as usize,
                ),
            forall|k1: int, k2: int|
                0 <= k1 < k2 < hs@.len() ==> #[trigger] hs@[k1] < #[trigger] hs@[k2],
    {
        let n = self.slots.len();
        let mut hs: Vec<usize> = Vec::new();
        let mut i: usize = 0;
        while i < n
            invariant
                n == self.slots@.len(),
                i <= n,
                forall|k: int| 0 <= k < hs@.len() ==> #[trigger] hs@[k] < self.slots@.len(),
                forall|k: int|
                    0 <= k < hs@.len() ==> slot_present(self.slots@[#[trigger] hs@[k] as int]),
                forall|j: int|
                    0 <= j < i && slot_present(#[trigger] self.slots@[j]) ==> hs@.contains(
                        j as usize,
                    ),
                forall|k: int| 0 <= k < hs@.len() ==> #[trigger] hs@[k] < i,
                forall|k1: int, k2: int|
                    0 <= k1 < k2 < hs@.len() ==> #[trigger] hs@[k1] < #[trigger] hs@[k2],
            decreases n - i,
        {
            let s = self.slots[i];
            match s {
                Slot::Free => {},
                _ => {
                    let ghost oldhs = hs@;
                    hs.push(i);
                    proof {
                        assert(slot_present(self.slots@[i as int]));
                        assert(hs@ == oldhs.push(i as usize));
                        assert(hs@[oldhs.len() as int] == i as usize);
                        assert(hs@.contains(i as usize));
                        assert forall|j: int|
                            0 <= j < i && slot_present(#[trigger] self.slots@[j]) implies hs@.contains(
                            j as usize,
                        ) by {
                            let k = choose|k: int|
                                0 <= k < oldhs.len() && oldhs[k] == j as usize;
                            assert(hs@[k] == j as usize);
                        }
                    }
                },
            }
            i = i + 1;
        }
        hs
    }
}

} // verus!

//! The entity registry: spawn, idempotent despawn, counting, and the
//! startup routine that seeds the arena.

use vstd::prelude::*;
use crate::components::{
    is_live_enemy, is_live_fireball, is_live_player, slot_ok, AttackCooldown, Enemy, Fireball,
    Player, Slot, Sprite, TextureKey, Transform, ATTACK_PERIOD_US, ENEMY_DAMAGE, ENEMY_HEALTH,
    ENEMY_W, FIREBALL_DAMAGE, FIREBALL_H, FIREBALL_SPEED, FIREBALL_W, PLAYER_H, PLAYER_HEALTH,
    PLAYER_SPEED, PLAYER_W, SPAWN_PERIOD_US, WINDOW_H, WINDOW_W,
};

verus! {

/// Number of slots of `s` that satisfy `f`.
pub open spec fn count_matching(s: Seq<Slot>, f: spec_fn(Slot) -> bool) -> int
    decreases s.len(),
{
    if s.len() == 0 {
        0
    } else {
        count_matching(s.drop_last(), f) + if f(s.last()) {
            1int
        } else {
            0int
        }
    }
}

/// Live player entities in `s`.
pub open spec fn count_players(s: Seq<Slot>) -> int {
    count_matching(s, |sl: Slot| is_live_player(sl))
}

/// Live enemy entities in `s`.
pub open spec fn count_enemies(s: Seq<Slot>) -> int {
    count_matching(s, |sl: Slot| is_live_enemy(sl))
}

/// Live projectile entities in `s`.
pub open spec fn count_fireballs(s: Seq<Slot>) -> int {
    count_matching(s, |sl: Slot| is_live_fireball(sl))
}

pub proof fn lemma_count_push(s: Seq<Slot>, f: spec_fn(Slot) -> bool, x: Slot)
    ensures
        count_matching(s.push(x), f) == count_matching(s, f) + if f(x) {
            1int
        } else {
            0int
        },
{
    assert(s.push(x).drop_last() =~= s);
    assert(s.push(x).last() == x);
}

/// Counting is pointwise: sequences whose slots agree under `f` have the
/// same count.
pub proof fn lemma_count_pointwise(s1: Seq<Slot>, s2: Seq<Slot>, f: spec_fn(Slot) -> bool)
    requires
        s1.len() == s2.len(),
        forall|j: int| 0 <= j < s1.len() ==> f(s1[j]) == f(s2[j]),
    ensures
        count_matching(s1, f) == count_matching(s2, f),
    decreases s1.len(),
{
    if s1.len() > 0 {
        lemma_count_pointwise(s1.drop_last(), s2.drop_last(), f);
    }
}

/// Slots that only lose the property under `f` can only lower the count.
pub proof fn lemma_count_pointwise_le(s1: Seq<Slot>, s2: Seq<Slot>, f: spec_fn(Slot) -> bool)
    requires
        s1.len() == s2.len(),
        forall|j: int| 0 <= j < s1.len() ==> (f(s2[j]) ==> f(s1[j])),
    ensures
        count_matching(s2, f) <= count_matching(s1, f),
    decreases s1.len(),
{
    if s1.len() > 0 {
        lemma_count_pointwise_le(s1.drop_last(), s2.drop_last(), f);
    }
}

pub proof fn lemma_count_update(s: Seq<Slot>, f: spec_fn(Slot) -> bool, j: int, x: Slot)
    requires
        0 <= j < s.len(),
    ensures
        count_matching(s.update(j, x), f) == count_matching(s, f) - (if f(s[j]) {
            1int
        } else {
            0int
        }) + (if f(x) {
            1int
        } else {
            0int
        }),
    decreases s.len(),
{
    if j == s.len() - 1 {
        assert(s.update(j, x).drop_last() =~= s.drop_last());
        assert(s.update(j, x).last() == x);
    } else {
        lemma_count_update(s.drop_last(), f, j, x);
        assert(s.update(j, x).drop_last() =~= s.drop_last().update(j, x));
        assert(s.update(j, x).last() == s.last());
    }
}

pub proof fn lemma_count_nonneg(s: Seq<Slot>, f: spec_fn(Slot) -> bool)
    ensures
        0 <= count_matching(s, f) <= s.len(),
    decreases s.len(),
{
    if s.len() > 0 {
        lemma_count_nonneg(s.drop_last(), f);
    }
}

pub proof fn lemma_count_at_least_one(s: Seq<Slot>, f: spec_fn(Slot) -> bool, j: int)
    requires
        0 <= j < s.len(),
        f(s[j]),
    ensures
        count_matching(s, f) >= 1,
    decreases s.len(),
{
    if j == s.len() - 1 {
        lemma_count_nonneg(s.drop_last(), f);
    } else {
        lemma_count_at_least_one(s.drop_last(), f, j);
    }
}

/// Two distinct matching slots put the count at two or more.
pub proof fn lemma_count_at_least_two(s: Seq<Slot>, f: spec_fn(Slot) -> bool, j: int, k: int)
    requires
        0 <= j < k < s.len(),
        f(s[j]),
        f(s[k]),
    ensures
        count_matching(s, f) >= 2,
    decreases s.len(),
{
    if k == s.len() - 1 {
        lemma_count_at_least_one(s.drop_last(), f, j);
    } else {
        lemma_count_at_least_two(s.drop_last(), f, j, k);
    }
}

/// At most one live entity carries the Player component: in a
/// well-formed world, any two live player slots are the same slot.
pub proof fn lemma_at_most_one_player(w: World, j: int, k: int)
    requires
        w.wf(),
        0 <= j < w.slots@.len(),
        0 <= k < w.slots@.len(),
        is_live_player(w.slots@[j]),
        is_live_player(w.slots@[k]),
    ensures
        j == k,
{
    if j < k {
        lemma_count_at_least_two(w.slots@, |sl: Slot| is_live_player(sl), j, k);
    } else if k < j {
        lemma_count_at_least_two(w.slots@, |sl: Slot| is_live_player(sl), k, j);
    }
}

/// The world store. Entity identifiers are indices into `slots`; a
/// despawned entity's slot stays with `alive == false`, so identifiers
/// are never reused. The spawn timer and the score live here too: the
/// spawner is the only writer of the timer and the reaper the only
/// writer of the score.
pub struct World {
    pub slots: Vec<Slot>,
    /// Time accumulated by the repeating enemy-spawn timer, in
    /// [0, SPAWN_PERIOD_US).
    pub spawn_elapsed_us: i64,
    /// Enemies despawned by the reaper so far.
    pub score: u64,
}

impl World {
    /// Well-formedness: the spawn timer sits inside its period, every
    /// slot is well formed, and at most one live entity is the player.
    pub open spec fn wf(self) -> bool {
        &&& 0 <= self.spawn_elapsed_us < SPAWN_PERIOD_US
        &&& forall|j: int| 0 <= j < self.slots@.len() ==> slot_ok(#[trigger] self.slots@[j])
        &&& count_players(self.slots@) <= 1
    }

    /// An empty arena: no entities, timer at zero, score zero.
    pub fn new() -> (w: World)
        ensures
            w.slots@ =~= Seq::<Slot>::empty(),
            w.spawn_elapsed_us == 0,
            w.score == 0,
            w.wf(),
    {
        let w = World { slots: Vec::new(), spawn_elapsed_us: 0, score: 0 };
        proof {
            lemma_count_nonneg(w.slots@, |sl: Slot| is_live_player(sl));
        }
        w
    }

    /// Attaches the bundle's components to a fresh entity and returns
    /// its identifier.
    pub fn spawn(&mut self, bundle: Slot) -> (id: usize)
        requires
            old(self).wf(),
            slot_ok(bundle),
            bundle.player is Some ==> count_players(old(self).slots@) == 0,
        ensures
            id == old(self).slots@.len(),
            final(self).slots@ =~= old(self).slots@.push(
                Slot { alive: true, ..bundle },
            ),
            final(self).spawn_elapsed_us == old(self).spawn_elapsed_us,
            final(self).score == old(self).score,
            final(self).wf(),
            count_enemies(final(self).slots@) == count_enemies(old(self).slots@) + (
            if bundle.enemy is Some {
                1int
            } else {
                0int
            }),
            count_fireballs(final(self).slots@) == count_fireballs(old(self).slots@) + (
            if bundle.fireball is Some {
                1int
            } else {
                0int
            }),
            count_players(final(self).slots@) == count_players(old(self).slots@) + (
            if bundle.player is Some {
                1int
            } else {
                0int
            }),
        {
        let id = self.slots.len();
        let live = Slot { alive: true, ..bundle };
        self.slots.push(live);
        proof {
            lemma_count_push(old(self).slots@, |sl: Slot| is_live_player(sl), live);
            lemma_count_push(old(self).slots@, |sl: Slot| is_live_enemy(sl), live);
            lemma_count_push(old(self).slots@, |sl: Slot| is_live_fireball(sl), live);
        }
        id
    }

    /// Removes the entity. Despawning an identifier that is unknown or
    /// already despawned changes nothing.
    pub fn despawn(&mut self, id: usize)
        ensures
            (id < old(self).slots@.len() && old(self).slots@[id as int].alive) ==> final(self).slots@ =~= old(self).slots@.update(
                id as int,
                Slot { alive: false, ..old(self).slots@[id as int] },
            ),
            !(id < old(self).slots@.len() && old(self).slots@[id as int].alive) ==> *final(self)
                == *old(self),
            final(self).spawn_elapsed_us == old(self).spawn_elapsed_us,
            final(self).score == old(self).score,
            final(self).slots@.len() == old(self).slots@.len(),
            old(self).wf() ==> final(self).wf(),
    {
        if id < self.slots.len() {
            if self.slots[id].alive {
                let dead = Slot { alive: false, ..self.slots[id] };
                self.slots[id] = dead;
                proof {
                    if old(self).wf() {
                        lemma_count_update(
                            old(self).slots@,
                            |sl: Slot| is_live_player(sl),
                            id as int,
                            dead,
                        );
                    }
                }
            }
        }
    }
}

/// The static background sprite's bundle.
pub open spec fn spec_background_slot() -> Slot {
    Slot {
        alive: true,
        transform: Some(Transform { x: 0, y: 0 }),
        sprite: Some(Sprite { w: WINDOW_W, h: WINDOW_H, texture: TextureKey::Wastelands }),
        player: None,
        enemy: None,
        fireball: None,
        cooldown: None,
    }
}

/// The player's bundle at startup: at the origin, facing Right, full
/// health, cooldown elapsed so the first shot is available at once.
pub open spec fn spec_initial_player_slot() -> Slot {
    Slot {
        alive: true,
        transform: Some(Transform { x: 0, y: 0 }),
        sprite: Some(Sprite { w: PLAYER_W, h: PLAYER_H, texture: TextureKey::BlackMage }),
        player: Some(Player { speed: PLAYER_SPEED, health: PLAYER_HEALTH, facing_left: false }),
        enemy: None,
        fireball: None,
        cooldown: Some(AttackCooldown { remaining_us: 0, period_us: ATTACK_PERIOD_US }),
    }
}

/// A freshly spawned enemy's bundle at the given position.
pub open spec fn spec_enemy_slot(x: i64, y: i64) -> Slot {
    Slot {
        alive: true,
        transform: Some(Transform { x, y }),
        sprite: Some(Sprite { w: ENEMY_W, h: ENEMY_W, texture: TextureKey::Cactuar }),
        player: None,
        enemy: Some(Enemy { health: ENEMY_HEALTH, damage: ENEMY_DAMAGE }),
        fireball: None,
        cooldown: None,
    }
}

/// A freshly fired projectile's bundle: at the shooter's position,
/// travelling the way the shooter faces.
pub open spec fn spec_fireball_slot(t: Transform, facing_left: bool) -> Slot {
    Slot {
        alive: true,
        transform: Some(t),
        sprite: Some(Sprite { w: FIREBALL_W, h: FIREBALL_H, texture: TextureKey::FireballTex }),
        player: None,
        enemy: None,
        fireball: Some(
            Fireball { speed: FIREBALL_SPEED, damage: FIREBALL_DAMAGE, facing_left },
        ),
        cooldown: None,
    }
}

/// Seeds a fresh arena: the background, then the player at the origin.
pub fn setup(world: &mut World)
    requires
        old(world).wf(),
        count_players(old(world).slots@) == 0,
    ensures
        final(world).slots@ =~= old(world).slots@.push(spec_background_slot()).push(
            spec_initial_player_slot(),
        ),
        final(world).spawn_elapsed_us == old(world).spawn_elapsed_us,
        final(world).score == old(world).score,
        final(world).wf(),
        count_players(final(world).slots@) == 1,
{
    let background = Slot {
        alive: true,
        transform: Some(Transform { x: 0, y: 0 }),
        sprite: Some(Sprite { w: WINDOW_W, h: WINDOW_H, texture: TextureKey::Wastelands }),
        player: None,
        enemy: None,
        fireball: None,
        cooldown: None,
    };
    world.spawn(background);
    let player = Slot {
        alive: true,
        transform: Some(Transform { x: 0, y: 0 }),
        sprite: Some(Sprite { w: PLAYER_W, h: PLAYER_H, texture: TextureKey::BlackMage }),
        player: Some(Player { speed: PLAYER_SPEED, health: PLAYER_HEALTH, facing_left: false }),
        enemy: None,
        fireball: None,
        cooldown: Some(AttackCooldown { remaining_us: 0, period_us: ATTACK_PERIOD_US }),
    };
    world.spawn(player);
}

/// Spawns one enemy with the standard health and contact damage at the
/// given position and returns its identifier.
pub fn spawn_enemy_at(world: &mut World, x: i64, y: i64) -> (id: usize)
    requires
        old(world).wf(),
    ensures
        id == old(world).slots@.len(),
        final(world).slots@ =~= old(world).slots@.push(spec_enemy_slot(x, y)),
        final(world).spawn_elapsed_us == old(world).spawn_elapsed_us,
        final(world).score == old(world).score,
        final(world).wf(),
        count_enemies(final(world).slots@) == count_enemies(old(world).slots@) + 1,
        count_players(final(world).slots@) == count_players(old(world).slots@),
        count_fireballs(final(world).slots@) == count_fireballs(old(world).slots@),
{
    let bundle = Slot {
        alive: true,
        transform: Some(Transform { x, y }),
        sprite: Some(Sprite { w: ENEMY_W, h: ENEMY_W, texture: TextureKey::Cactuar }),
        player: None,
        enemy: Some(Enemy { health: ENEMY_HEALTH, damage: ENEMY_DAMAGE }),
        fireball: None,
        cooldown: None,
    };
    world.spawn(bundle)
}

} // verus!

//! The lifecycle reaper: after collision and damage, despawns every
//! enemy whose health reached zero (incrementing the score once per
//! enemy) and despawns the player at zero health. Game-over is the
//! absence of a live player.

use vstd::prelude::*;
use crate::components::{is_live_enemy, is_live_fireball, is_live_player, slot_ok, Slot};
use crate::world::{
    count_enemies, count_fireballs, count_matching, count_players, lemma_count_pointwise,
    lemma_count_pointwise_le, World,
};

verus! {

/// A slot the reaper removes: a live enemy out of health.
pub open spec fn spec_reaped_enemy(sl: Slot) -> bool {
    is_live_enemy(sl) && sl.enemy.unwrap().health <= 0
}

/// A slot the reaper removes without scoring: the live player out of
/// health.
pub open spec fn spec_reaped_player(sl: Slot) -> bool {
    is_live_player(sl) && sl.player.unwrap().health <= 0
}

/// One slot after the reaper ran: entities out of health are despawned,
/// their components kept in place; every other slot is untouched.
pub open spec fn spec_reaped_slot(sl: Slot) -> Slot {
    if spec_reaped_enemy(sl) || spec_reaped_player(sl) {
        Slot {
            alive: false,
            transform: sl.transform,
            sprite: sl.sprite,
            player: sl.player,
            enemy: sl.enemy,
            fireball: sl.fireball,
            cooldown: sl.cooldown,
        }
    } else {
        sl
    }
}

/// How many enemies the reaper despawns from `s`.
pub open spec fn spec_reaped_count(s: Seq<Slot>) -> int {
    count_matching(s, |sl: Slot| spec_reaped_enemy(sl))
}

/// The score after the reaper: one point per despawned enemy,
/// saturating at the counter's range.
pub open spec fn spec_reaped_score(score: int, s: Seq<Slot>) -> int {
    if score + spec_reaped_count(s) > u64::MAX as int {
        u64::MAX as int
    } else {
        score + spec_reaped_count(s)
    }
}

/// Despawns every enemy whose health is at or below zero, scoring one
/// point each, and despawns the player at or below zero health. Every
/// live entity with a health field that survives has health at least
/// one.
pub fn despawn_enemy(world: &mut World)
    requires
        old(world).wf(),
    ensures
        final(world).slots@.len() == old(world).slots@.len(),
        forall|j: int|
            0 <= j < old(world).slots@.len() ==> final(world).slots@[j] == spec_reaped_slot(
                old(world).slots@[j],
            ),
        final(world).score as int == spec_reaped_score(
            old(world).score as int,
            old(world).slots@,
        ),
        final(world).spawn_elapsed_us == old(world).spawn_elapsed_us,
        final(world).wf(),
        forall|j: int|
            0 <= j < final(world).slots@.len() && is_live_enemy(#[trigger] final(world).slots@[j])
                ==> final(world).slots@[j].enemy.unwrap().health >= 1,
        forall|j: int|
            0 <= j < final(world).slots@.len() && is_live_player(#[trigger] final(world).slots@[j])
                ==> final(world).slots@[j].player.unwrap().health >= 1,
        count_players(final(world).slots@) <= count_players(old(world).slots@),
        count_fireballs(final(world).slots@) <= count_fireballs(old(world).slots@),
        count_enemies(final(world).slots@) == count_enemies(old(world).slots@)
            - spec_reaped_count(old(world).slots@),
{
    let ghost s0 = old(world).slots@;
    let n = world.slots.len();
    let mut i: usize = 0;
    while i < n
        invariant
            n == s0.len(),
            world.slots@.len() == n,
            0 <= i <= n,
            forall|j: int| 0 <= j < i ==> world.slots@[j] == spec_reaped_slot(s0[j]),
            forall|j: int| i <= j < n ==> world.slots@[j] == s0[j],
            world.spawn_elapsed_us == old(world).spawn_elapsed_us,
            world.score as int == spec_reaped_score_prefix(old(world).score as int, s0, i as int),
        decreases n - i,
    {
        let s = world.slots[i];
        let mut reap = false;
        let mut scored = false;
        if s.alive {
            if let Some(e) = s.enemy {
                if e.health <= 0 {
                    reap = true;
                    scored = true;
                }
            }
            if let Some(p) = s.player {
                if p.health <= 0 {
                    reap = true;
                }
            }
        }
        if reap {
            let dead = Slot {
                alive: false,
                transform: s.transform,
                sprite: s.sprite,
                player: s.player,
                enemy: s.enemy,
                fireball: s.fireball,
                cooldown: s.cooldown,
            };
            world.slots[i] = dead;
        }
        if scored {
            if world.score < u64::MAX {
                world.score = world.score + 1;
            }
        }
        proof {
            lemma_reaped_prefix_step(s0, i as int);
        }
        i = i + 1;
    }
    proof {
        lemma_reaped_prefix_full(s0, n as int);
        let s2 = world.slots@;
        assert forall|j: int| 0 <= j < n implies slot_ok(#[trigger] s2[j]) by {
            assert(slot_ok(s0[j]));
        }
        assert forall|j: int|
            0 <= j < n && is_live_enemy(#[trigger] s2[j]) implies s2[j].enemy.unwrap().health
            >= 1 by {
            assert(s2[j] == spec_reaped_slot(s0[j]));
        }
        assert forall|j: int|
            0 <= j < n && is_live_player(#[trigger] s2[j]) implies s2[j].player.unwrap().health
            >= 1 by {
            assert(s2[j] == spec_reaped_slot(s0[j]));
        }
        lemma_count_pointwise_le(s0, s2, |sl: Slot| is_live_player(sl));
        lemma_count_pointwise_le(s0, s2, |sl: Slot| is_live_fireball(sl));
        lemma_reaper_enemy_count(s0, s2);
    }
}

/// The score after reaping only the first `i` slots.
pub open spec fn spec_reaped_score_prefix(score: int, s: Seq<Slot>, i: int) -> int {
    if score + spec_reaped_count(s.take(i)) > u64::MAX as int {
        u64::MAX as int
    } else {
        score + spec_reaped_count(s.take(i))
    }
}

pub proof fn lemma_reaped_prefix_step(s: Seq<Slot>, i: int)
    requires
        0 <= i < s.len(),
    ensures
        spec_reaped_count(s.take(i + 1)) == spec_reaped_count(s.take(i)) + if spec_reaped_enemy(
            s[i],
        ) {
            1int
        } else {
            0int
        },
        spec_reaped_count(s.take(i)) >= 0,
{
    assert(s.take(i + 1).drop_last() =~= s.take(i));
    assert(s.take(i + 1).last() == s[i]);
    crate::world::lemma_count_nonneg(s.take(i), |sl: Slot| spec_reaped_enemy(sl));
}

pub proof fn lemma_reaped_prefix_full(s: Seq<Slot>, n: int)
    requires
        n == s.len(),
    ensures
        spec_reaped_count(s.take(n)) == spec_reaped_count(s),
{
    assert(s.take(n) =~= s);
}

/// Each reaped enemy lowers the live-enemy count by exactly one.
pub proof fn lemma_reaper_enemy_count(s0: Seq<Slot>, s2: Seq<Slot>)
    requires
        s0.len() == s2.len(),
        forall|j: int| 0 <= j < s0.len() ==> slot_ok(#[trigger] s0[j]),
        forall|j: int| 0 <= j < s0.len() ==> s2[j] == spec_reaped_slot(s0[j]),
    ensures
        count_enemies(s2) == count_enemies(s0) - spec_reaped_count(s0),
    decreases s0.len(),
{
    if s0.len() > 0 {
        lemma_reaper_enemy_count(s0.drop_last(), s2.drop_last());
        assert(s2.last() == spec_reaped_slot(s0.last()));
        let a = s0.last();
        assert(slot_ok(a));
        if spec_reaped_enemy(a) {
            assert(!is_live_enemy(s2.last()));
        } else if spec_reaped_player(a) {
            // A well-formed player slot carries no enemy component, so
            // despawning the player removes no enemy.
            assert(!is_live_enemy(a));
            assert(!is_live_enemy(s2.last()));
        } else {
            assert(s2.last() == a);
        }
    }
}

} // verus!

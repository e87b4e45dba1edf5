//! Collision and damage: circular overlap between projectiles and
//! enemies, then between enemies and the player.
//!
//! Per tick, projectiles are processed in identifier order; each one
//! damages the first live overlapping enemy and is despawned by the hit
//! (one projectile damages at most one enemy per tick). Afterwards every
//! live enemy overlapping the player applies its contact damage once.
//! Despawning for health is not done here: the reaper runs afterwards.

use vstd::prelude::*;
use crate::components::{
    is_live_enemy, is_live_fireball, is_live_player, slot_ok, Enemy, Player, Slot, Transform,
    HIT_RADIUS,
};
use crate::num::{clip_i64, sat_sub_i64};
use crate::world::{
    count_enemies, count_fireballs, count_players, lemma_count_pointwise_le, World,
};

verus! {

/// Two positions are in contact: their Euclidean distance is under the
/// hit radius (stated on the squares, which is exact).
pub open spec fn spec_hit(a: Transform, b: Transform) -> bool {
    let dx = a.x - b.x;
    let dy = a.y - b.y;
    dx * dx + dy * dy < (HIT_RADIUS as int) * (HIT_RADIUS as int)
}

/// Decides contact. Wide coordinates are screened out first so the
/// squares stay small.
pub fn hit(a: &Transform, b: &Transform) -> (r: bool)
    ensures
        r == spec_hit(*a, *b),
{
    let dx: i128 = a.x as i128 - b.x as i128;
    let dy: i128 = a.y as i128 - b.y as i128;
    let rad: i128 = HIT_RADIUS as i128;
    if dx >= rad || -dx >= rad || dy >= rad || -dy >= rad {
        proof {
            let dxi = a.x - b.x;
            let dyi = a.y - b.y;
            if dxi >= HIT_RADIUS as int || dxi <= -(HIT_RADIUS as int) {
                assert(dxi * dxi >= (HIT_RADIUS as int) * (HIT_RADIUS as int)) by (nonlinear_arith)
                    requires
                        dxi >= HIT_RADIUS as int || dxi <= -(HIT_RADIUS as int),
                        HIT_RADIUS > 0,
                ;
            } else {
                assert(dyi >= HIT_RADIUS as int || dyi <= -(HIT_RADIUS as int));
                assert(dyi * dyi >= (HIT_RADIUS as int) * (HIT_RADIUS as int)) by (nonlinear_arith)
                    requires
                        dyi >= HIT_RADIUS as int || dyi <= -(HIT_RADIUS as int),
                        HIT_RADIUS > 0,
                ;
            }
            assert(dxi * dxi >= 0 && dyi * dyi >= 0) by (nonlinear_arith);
        }
        false
    } else {
        proof {
            assert((dx as int) * (dx as int) < (HIT_RADIUS as int) * (HIT_RADIUS as int))
                by (nonlinear_arith)
                requires
                    -(HIT_RADIUS as int) < (dx as int) && (dx as int) < (HIT_RADIUS as int),
                    HIT_RADIUS > 0,
            ;
            assert((dy as int) * (dy as int) < (HIT_RADIUS as int) * (HIT_RADIUS as int))
                by (nonlinear_arith)
                requires
                    -(HIT_RADIUS as int) < (dy as int) && (dy as int) < (HIT_RADIUS as int),
                    HIT_RADIUS > 0,
            ;
            assert((dx as int) * (dx as int) >= 0 && (dy as int) * (dy as int) >= 0)
                by (nonlinear_arith);
        }
        dx * dx + dy * dy < rad * rad
    }
}

/// The slot with its enemy's health lowered by `dmg` (saturating).
pub open spec fn spec_damaged_enemy_slot(sl: Slot, dmg: int) -> Slot {
    Slot {
        alive: sl.alive,
        transform: sl.transform,
        sprite: sl.sprite,
        player: sl.player,
        enemy: Some(
            Enemy {
                health: clip_i64(sl.enemy.unwrap().health - dmg) as i64,
                damage: sl.enemy.unwrap().damage,
            },
        ),
        fireball: sl.fireball,
        cooldown: sl.cooldown,
    }
}

/// The slot with its player's health lowered by `dmg` (saturating).
pub open spec fn spec_damaged_player_slot(sl: Slot, dmg: int) -> Slot {
    Slot {
        alive: sl.alive,
        transform: sl.transform,
        sprite: sl.sprite,
        player: Some(
            Player {
                speed: sl.player.unwrap().speed,
                health: clip_i64(sl.player.unwrap().health - dmg) as i64,
                facing_left: sl.player.unwrap().facing_left,
            },
        ),
        enemy: sl.enemy,
        fireball: sl.fireball,
        cooldown: sl.cooldown,
    }
}

/// The slot despawned, components kept.
pub open spec fn spec_dead_slot(sl: Slot) -> Slot {
    Slot {
        alive: false,
        transform: sl.transform,
        sprite: sl.sprite,
        player: sl.player,
        enemy: sl.enemy,
        fireball: sl.fireball,
        cooldown: sl.cooldown,
    }
}

/// Whether slot `j` is a target for a projectile at `pt`: a live enemy
/// with a position in contact.
pub open spec fn spec_is_target(s: Seq<Slot>, pt: Transform, j: int) -> bool {
    &&& is_live_enemy(s[j])
    &&& s[j].transform is Some
    &&& spec_hit(pt, s[j].transform.unwrap())
}

/// The first target at or after `j` for a projectile at `pt`.
pub open spec fn spec_first_target(s: Seq<Slot>, pt: Transform, j: int) -> Option<int>
    decreases s.len() - j,
{
    if s.len() - j <= 0 {
        None
    } else if spec_is_target(s, pt, j) {
        Some(j)
    } else {
        spec_first_target(s, pt, j + 1)
    }
}

/// A found first target is in range and is a target.
pub proof fn lemma_first_target_props(s: Seq<Slot>, pt: Transform, j: int)
    requires
        spec_first_target(s, pt, j) is Some,
    ensures
        j <= spec_first_target(s, pt, j).unwrap() < s.len(),
        spec_is_target(s, pt, spec_first_target(s, pt, j).unwrap()),
    decreases s.len() - j,
{
    if s.len() - j <= 0 {
    } else if spec_is_target(s, pt, j) {
    } else {
        lemma_first_target_props(s, pt, j + 1);
    }
}

/// One projectile processed: if slot `i` is a live projectile with a
/// position and it has a target, the first target's enemy takes the
/// projectile's damage and the projectile despawns.
pub open spec fn spec_proj_step(s: Seq<Slot>, i: int) -> Seq<Slot> {
    if 0 <= i < s.len() && is_live_fireball(s[i]) && s[i].transform is Some {
        match spec_first_target(s, s[i].transform.unwrap(), 0) {
            Some(j) => s.update(
                j,
                spec_damaged_enemy_slot(s[j], s[i].fireball.unwrap().damage as int),
            ).update(i, spec_dead_slot(s[i])),
            None => s,
        }
    } else {
        s
    }
}

/// Projectiles `0..i` processed in order.
pub open spec fn spec_proj_phase(s: Seq<Slot>, i: int) -> Seq<Slot>
    decreases i,
{
    if i <= 0 {
        s
    } else {
        spec_proj_step(spec_proj_phase(s, i - 1), i - 1)
    }
}

/// The first live player slot with a position, at or after `j`.
pub open spec fn spec_find_player(s: Seq<Slot>, j: int) -> Option<int>
    decreases s.len() - j,
{
    if s.len() - j <= 0 {
        None
    } else if is_live_player(s[j]) && s[j].transform is Some {
        Some(j)
    } else {
        spec_find_player(s, j + 1)
    }
}

/// Enemies `0..j` processed for contact with the player at slot `p`:
/// each live enemy in contact applies its damage to the player once.
pub open spec fn spec_contact_fold(s: Seq<Slot>, p: int, j: int) -> Seq<Slot>
    decreases j,
{
    if j <= 0 {
        s
    } else {
        let t = spec_contact_fold(s, p, j - 1);
        if {
            &&& 0 <= j - 1 < t.len()
            &&& is_live_enemy(t[j - 1])
            &&& t[j - 1].transform is Some
            &&& 0 <= p < t.len()
            &&& t[p].player is Some
            &&& t[p].transform is Some
            &&& spec_hit(t[j - 1].transform.unwrap(), t[p].transform.unwrap())
        } {
            t.update(p, spec_damaged_player_slot(t[p], t[j - 1].enemy.unwrap().damage as int))
        } else {
            t
        }
    }
}

/// The whole collision system on a sequence of slots: the projectile
/// phase, then the contact phase against the first live player.
pub open spec fn spec_collisions(s: Seq<Slot>) -> Seq<Slot> {
    let after_proj = spec_proj_phase(s, s.len() as int);
    match spec_find_player(after_proj, 0) {
        Some(p) => spec_contact_fold(after_proj, p, after_proj.len() as int),
        None => after_proj,
    }
}

/// How any slot may change across collision and damage: positions,
/// sprites, projectile components and cooldowns are untouched, entities
/// may only die (never revive), components are neither added nor
/// removed, and only health fields change.
pub open spec fn slot_evolved(a: Slot, b: Slot) -> bool {
    &&& b.transform == a.transform
    &&& b.sprite == a.sprite
    &&& b.fireball == a.fireball
    &&& b.cooldown == a.cooldown
    &&& (b.alive ==> a.alive)
    &&& (b.enemy is Some <==> a.enemy is Some)
    &&& (b.enemy is Some ==> b.enemy.unwrap().damage == a.enemy.unwrap().damage)
    &&& (b.player is Some <==> a.player is Some)
    &&& (b.player is Some ==> b.player.unwrap().speed == a.player.unwrap().speed
        && b.player.unwrap().facing_left == a.player.unwrap().facing_left)
}

pub proof fn lemma_proj_step_props(s: Seq<Slot>, i: int)
    ensures
        spec_proj_step(s, i).len() == s.len(),
        forall|k: int|
            0 <= k < s.len() ==> slot_evolved(s[k], #[trigger] spec_proj_step(s, i)[k]),
{
    if 0 <= i < s.len() && is_live_fireball(s[i]) && s[i].transform is Some {
        let pt = s[i].transform.unwrap();
        match spec_first_target(s, pt, 0) {
            Some(j) => {
                lemma_first_target_props(s, pt, 0);
                let t = spec_proj_step(s, i);
                assert forall|k: int| 0 <= k < s.len() implies slot_evolved(
                    s[k],
                    #[trigger] t[k],
                ) by {
                    if k == i {
                        assert(t[k] == spec_dead_slot(s[i]));
                    } else if k == j {
                        assert(t[k] == spec_damaged_enemy_slot(
                            s[j],
                            s[i].fireball.unwrap().damage as int,
                        ));
                    } else {
                        assert(t[k] == s[k]);
                    }
                }
            },
            None => {},
        }
    }
}

pub proof fn lemma_proj_phase_props(s: Seq<Slot>, i: int)
    ensures
        spec_proj_phase(s, i).len() == s.len(),
        forall|k: int|
            0 <= k < s.len() ==> slot_evolved(s[k], #[trigger] spec_proj_phase(s, i)[k]),
    decreases i,
{
    if i <= 0 {
    } else {
        lemma_proj_phase_props(s, i - 1);
        lemma_proj_step_props(spec_proj_phase(s, i - 1), i - 1);
    }
}

pub proof fn lemma_contact_fold_props(s: Seq<Slot>, p: int, j: int)
    ensures
        spec_contact_fold(s, p, j).len() == s.len(),
        forall|k: int|
            0 <= k < s.len() ==> slot_evolved(s[k], #[trigger] spec_contact_fold(s, p, j)[k]),
        forall|k: int|
            0 <= k < s.len() && k != p ==> #[trigger] spec_contact_fold(s, p, j)[k] == s[k],
        0 <= p < s.len() ==> spec_contact_fold(s, p, j)[p].alive == s[p].alive,
    decreases j,
{
    if j <= 0 {
    } else {
        lemma_contact_fold_props(s, p, j - 1);
    }
}

/// Everything the collision system leaves alone, stated of the whole
/// sequence.
pub proof fn lemma_collisions_props(s: Seq<Slot>)
    ensures
        spec_collisions(s).len() == s.len(),
        forall|k: int| 0 <= k < s.len() ==> slot_evolved(s[k], #[trigger] spec_collisions(s)[k]),
{
    let after_proj = spec_proj_phase(s, s.len() as int);
    lemma_proj_phase_props(s, s.len() as int);
    match spec_find_player(after_proj, 0) {
        Some(p) => {
            lemma_contact_fold_props(after_proj, p, after_proj.len() as int);
        },
        None => {},
    }
}

/// Applies circular-overlap collision and damage to the whole world:
/// first projectile-versus-enemy in identifier order, then
/// enemy-versus-player. Nothing moves, spawns or changes score here;
/// entities die only by a projectile hit consuming the projectile.
pub fn check_collisions(world: &mut World)
    requires
        old(world).wf(),
    ensures
        final(world).slots@ =~= spec_collisions(old(world).slots@),
        final(world).slots@.len() == old(world).slots@.len(),
        final(world).spawn_elapsed_us == old(world).spawn_elapsed_us,
        final(world).score == old(world).score,
        final(world).wf(),
        forall|k: int|
            0 <= k < old(world).slots@.len() ==> slot_evolved(
                old(world).slots@[k],
                #[trigger] final(world).slots@[k],
            ),
        count_players(final(world).slots@) <= count_players(old(world).slots@),
        count_enemies(final(world).slots@) <= count_enemies(old(world).slots@),
        count_fireballs(final(world).slots@) <= count_fireballs(old(world).slots@),
{
    let ghost s0 = old(world).slots@;
    let n = world.slots.len();

    // Projectile phase.
    let mut i: usize = 0;
    while i < n
        invariant
            n == s0.len(),
            world.slots@.len() == n,
            0 <= i <= n,
            world.slots@ =~= spec_proj_phase(s0, i as int),
            world.spawn_elapsed_us == old(world).spawn_elapsed_us,
            world.score == old(world).score,
        decreases n - i,
    {
        let ghost cur = world.slots@;
        let s_i = world.slots[i];
        if s_i.alive && s_i.fireball.is_some() && s_i.transform.is_some() {
            let pt = match s_i.transform {
                Some(t) => t,
                None => Transform { x: 0, y: 0 },
            };
            let dmg = match s_i.fireball {
                Some(f) => f.damage,
                None => 0,
            };
            // Scan for the first live overlapping enemy.
            let mut j: usize = 0;
            let mut found: Option<usize> = None;
            while j < n && found.is_none()
                invariant
                    n == cur.len(),
                    world.slots@ == cur,
                    0 <= i < n,
                    0 <= j <= n,
                    pt == cur[i as int].transform.unwrap(),
                    found is None ==> spec_first_target(cur, pt, 0) == spec_first_target(
                        cur,
                        pt,
                        j as int,
                    ),
                    found is Some ==> {
                        &&& found.unwrap() < n
                        &&& spec_first_target(cur, pt, 0) == Some(found.unwrap() as int)
                        &&& spec_is_target(cur, pt, found.unwrap() as int)
                    },
                decreases n - j, (if found is None { 1int } else { 0int }),
            {
                let e = world.slots[j];
                if e.alive && e.enemy.is_some() && e.transform.is_some() {
                    let et = match e.transform {
                        Some(t) => t,
                        None => Transform { x: 0, y: 0 },
                    };
                    if hit(&pt, &et) {
                        found = Some(j);
                    }
                }
                if found.is_none() {
                    j = j + 1;
                }
            }
            match found {
                Some(j_hit) => {
                    let e = world.slots[j_hit];
                    let old_enemy = match e.enemy {
                        Some(en) => en,
                        None => Enemy { health: 0, damage: 0 },
                    };
                    let damaged = Slot {
                        alive: e.alive,
                        transform: e.transform,
                        sprite: e.sprite,
                        player: e.player,
                        enemy: Some(
                            Enemy {
                                health: sat_sub_i64(old_enemy.health, dmg),
                                damage: old_enemy.damage,
                            },
                        ),
                        fireball: e.fireball,
                        cooldown: e.cooldown,
                    };
                    world.slots[j_hit] = damaged;
                    let dead = Slot {
                        alive: false,
                        transform: s_i.transform,
                        sprite: s_i.sprite,
                        player: s_i.player,
                        enemy: s_i.enemy,
                        fireball: s_i.fireball,
                        cooldown: s_i.cooldown,
                    };
                    world.slots[i] = dead;
                    proof {
                        assert(e == cur[j_hit as int]);
                        assert(damaged == spec_damaged_enemy_slot(cur[j_hit as int], dmg as int));
                        assert(dead == spec_dead_slot(cur[i as int]));
                        assert(world.slots@ =~= cur.update(
                            j_hit as int,
                            spec_damaged_enemy_slot(cur[j_hit as int], dmg as int),
                        ).update(i as int, spec_dead_slot(cur[i as int])));
                        assert(world.slots@ =~= spec_proj_step(cur, i as int));
                    }
                },
                None => {
                    proof {
                        assert(spec_first_target(cur, pt, j as int) is None);
                        assert(world.slots@ =~= spec_proj_step(cur, i as int));
                    }
                },
            }
        } else {
            proof {
                assert(world.slots@ =~= spec_proj_step(cur, i as int));
            }
        }
        i = i + 1;
    }

    let ghost s_a = world.slots@;
    proof {
        assert(s_a =~= spec_proj_phase(s0, n as int));
    }

    // Find the player.
    let mut p: usize = 0;
    let mut p_found: Option<usize> = None;
    while p < n && p_found.is_none()
        invariant
            n == s_a.len(),
            world.slots@ =~= s_a,
            0 <= p <= n,
            world.spawn_elapsed_us == old(world).spawn_elapsed_us,
            world.score == old(world).score,
            p_found is None ==> spec_find_player(s_a, 0) == spec_find_player(s_a, p as int),
            p_found is Some ==> {
                &&& p_found.unwrap() < n
                &&& spec_find_player(s_a, 0) == Some(p_found.unwrap() as int)
                &&& is_live_player(s_a[p_found.unwrap() as int])
                &&& s_a[p_found.unwrap() as int].transform is Some
            },
        decreases n - p, (if p_found is None { 1int } else { 0int }),
    {
        let s_p = world.slots[p];
        if s_p.alive && s_p.player.is_some() && s_p.transform.is_some() {
            p_found = Some(p);
        } else {
            p = p + 1;
        }
    }

    // Contact phase.
    match p_found {
        Some(pi) => {
            let pt = match world.slots[pi].transform {
                Some(t) => t,
                None => Transform { x: 0, y: 0 },
            };
            let mut j: usize = 0;
            while j < n
                invariant
                    n == s_a.len(),
                    world.slots@.len() == n,
                    0 <= j <= n,
                    pi < n,
                    spec_find_player(s_a, 0) == Some(pi as int),
                    is_live_player(s_a[pi as int]),
                    s_a[pi as int].transform is Some,
                    pt == s_a[pi as int].transform.unwrap(),
                    world.slots@ =~= spec_contact_fold(s_a, pi as int, j as int),
                    world.spawn_elapsed_us == old(world).spawn_elapsed_us,
                    world.score == old(world).score,
                decreases n - j,
            {
                let ghost cur = world.slots@;
                proof {
                    lemma_contact_fold_props(s_a, pi as int, j as int);
                }
                let e = world.slots[j];
                if e.alive && e.enemy.is_some() && e.transform.is_some() {
                    let et = match e.transform {
                        Some(t) => t,
                        None => Transform { x: 0, y: 0 },
                    };
                    if hit(&et, &pt) {
                        let edmg = match e.enemy {
                            Some(en) => en.damage,
                            None => 0,
                        };
                        let sp = world.slots[pi];
                        let old_pl = match sp.player {
                            Some(pl) => pl,
                            None => Player { speed: 0, health: 0, facing_left: false },
                        };
                        let hurt = Slot {
                            alive: sp.alive,
                            transform: sp.transform,
                            sprite: sp.sprite,
                            player: Some(
                                Player {
                                    speed: old_pl.speed,
                                    health: sat_sub_i64(old_pl.health, edmg),
                                    facing_left: old_pl.facing_left,
                                },
                            ),
                            enemy: sp.enemy,
                            fireball: sp.fireball,
                            cooldown: sp.cooldown,
                        };
                        world.slots[pi] = hurt;
                        proof {
                            assert(world.slots@ =~= spec_contact_fold(s_a, pi as int, j as int + 1));
                        }
                    } else {
                        proof {
                            assert(world.slots@ =~= spec_contact_fold(s_a, pi as int, j as int + 1));
                        }
                    }
                } else {
                    proof {
                        assert(world.slots@ =~= spec_contact_fold(s_a, pi as int, j as int + 1));
                    }
                }
                j = j + 1;
            }
        },
        None => {},
    }

    proof {
        assert(world.slots@ =~= spec_collisions(s0));
        lemma_collisions_props(s0);
        assert forall|k: int| 0 <= k < s0.len() implies slot_ok(#[trigger] world.slots@[k]) by {
            assert(slot_ok(s0[k]));
            assert(slot_evolved(s0[k], world.slots@[k]));
        }
        assert forall|k: int|
            0 <= k < s0.len() implies (is_live_player(#[trigger] world.slots@[k])
            ==> is_live_player(s0[k])) && (is_live_enemy(world.slots@[k]) ==> is_live_enemy(
            s0[k],
        )) && (is_live_fireball(world.slots@[k]) ==> is_live_fireball(s0[k])) by {
            assert(slot_evolved(s0[k], world.slots@[k]));
        }
        lemma_count_pointwise_le(s0, world.slots@, |sl: Slot| is_live_player(sl));
        lemma_count_pointwise_le(s0, world.slots@, |sl: Slot| is_live_enemy(sl));
        lemma_count_pointwise_le(s0, world.slots@, |sl: Slot| is_live_fireball(sl));
    }
}

} // verus!

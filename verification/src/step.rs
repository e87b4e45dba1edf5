//! The tick driver: clamps the supplied time delta, runs the fixed
//! pipeline (input mapper, player controller, attack, projectile
//! motion, enemy spawner, collision and damage, reaper) in that exact
//! order, and enumerates the render list and the score.

use vstd::prelude::*;
use crate::attack::{attack, spec_any_fires, spec_attacked_slot};
use crate::collision::{check_collisions, slot_evolved, spec_collisions};
use crate::components::{
    is_live_enemy, is_live_player, slot_ok, Slot, TextureKey, ATTACK_PERIOD_US, DT_MAX_US,
    SPAWN_PERIOD_US, Y_TOP,
};
use crate::input::{spec_move_x, spec_move_y, InputSnapshot};
use crate::motion::{character_movement, move_fireball, spec_flown_slot, spec_moved_slot};
use crate::reaper::despawn_enemy;
use crate::spawner::{spawn_enemy, spec_spawn_crosses, spec_spawn_elapsed};
use crate::world::{
    count_enemies, count_fireballs, count_players, spec_enemy_slot, World,
};

verus! {

/// The time delta actually simulated: negative deltas become zero and
/// large ones are capped, bounding per-tick motion.
pub open spec fn spec_clamp_dt(dt: int) -> int {
    if dt < 0 {
        0
    } else if dt > DT_MAX_US {
        DT_MAX_US as int
    } else {
        dt
    }
}

/// The world's slots after the player controller and the projectile
/// mover, before anything spawns.
pub open spec fn spec_after_motion(s: Seq<Slot>, i: InputSnapshot, dt: int) -> Seq<Slot> {
    Seq::new(
        s.len(),
        |j: int| spec_flown_slot(spec_moved_slot(s[j], spec_move_x(i), spec_move_y(i), dt), dt),
    )
}

/// One sprite to draw: an entity's identifier, position, size, whether
/// to flip horizontally, and the texture. The player is drawn flipped
/// when facing Right; a projectile is drawn flipped when travelling
/// Left; everything else is unflipped.
#[derive(Clone, Copy, PartialEq, Eq, Structural, Debug)]
pub struct RenderItem {
    pub id: usize,
    pub x: i64,
    pub y: i64,
    pub w: i64,
    pub h: i64,
    pub flip: bool,
    pub texture: TextureKey,
}

/// A slot the renderer draws: live, placed, and with a sprite.
pub open spec fn spec_renderable(sl: Slot) -> bool {
    sl.alive && sl.transform is Some && sl.sprite is Some
}

/// The horizontal flip of a slot's sprite.
pub open spec fn spec_flip(sl: Slot) -> bool {
    if sl.player is Some {
        !sl.player.unwrap().facing_left
    } else if sl.fireball is Some {
        sl.fireball.unwrap().facing_left
    } else {
        false
    }
}

/// The render entry for slot `id`.
pub open spec fn spec_render_item(sl: Slot, id: int) -> RenderItem {
    RenderItem {
        id: id as usize,
        x: sl.transform.unwrap().x,
        y: sl.transform.unwrap().y,
        w: sl.sprite.unwrap().w,
        h: sl.sprite.unwrap().h,
        flip: spec_flip(sl),
        texture: sl.sprite.unwrap().texture,
    }
}

/// The render entries of slots `j..`, in identifier order.
pub open spec fn spec_render(s: Seq<Slot>, j: int) -> Seq<RenderItem>
    decreases s.len() - j,
{
    if s.len() - j <= 0 {
        Seq::empty()
    } else if spec_renderable(s[j]) {
        seq![spec_render_item(s[j], j)] + spec_render(s, j + 1)
    } else {
        spec_render(s, j + 1)
    }
}

/// Enumerates every live, placed, sprited entity in identifier order.
pub fn render_list(world: &World) -> (out: Vec<RenderItem>)
    ensures
        out@ == spec_render(world.slots@, 0),
{
    let ghost s = world.slots@;
    let n = world.slots.len();
    let mut out: Vec<RenderItem> = Vec::new();
    let mut j: usize = 0;
    while j < n
        invariant
            n == s.len(),
            world.slots@ == s,
            0 <= j <= n,
            spec_render(s, 0) =~= out@ + spec_render(s, j as int),
        decreases n - j,
    {
        let ghost out_before = out@;
        let sl = world.slots[j];
        if sl.alive && sl.transform.is_some() && sl.sprite.is_some() {
            let t = match sl.transform {
                Some(t) => t,
                None => crate::components::Transform { x: 0, y: 0 },
            };
            let sp = match sl.sprite {
                Some(sp) => sp,
                None => crate::components::Sprite {
                    w: 0,
                    h: 0,
                    texture: TextureKey::Wastelands,
                },
            };
            let flip = if sl.player.is_some() {
                match sl.player {
                    Some(p) => !p.facing_left,
                    None => false,
                }
            } else if sl.fireball.is_some() {
                match sl.fireball {
                    Some(f) => f.facing_left,
                    None => false,
                }
            } else {
                false
            };
            let item = RenderItem { id: j, x: t.x, y: t.y, w: sp.w, h: sp.h, flip, texture: sp.texture };
            out.push(item);
            proof {
                assert(item == spec_render_item(s[j as int], j as int));
                assert(out@ =~= out_before + seq![item]);
                assert(out_before + spec_render(s, j as int) =~= out@ + spec_render(s, j as int + 1));
            }
        } else {
            proof {
                assert(spec_render(s, j as int) =~= spec_render(s, j as int + 1));
            }
        }
        j = j + 1;
    }
    proof {
        assert(spec_render(s, n as int) =~= Seq::<RenderItem>::empty());
        assert(out@ + spec_render(s, n as int) =~= out@);
        assert(out@ =~= spec_render(s, 0));
    }
    out
}

/// Advances the world by one tick.
///
/// The pipeline order is part of the contract: input mapping, player
/// movement, attack, projectile motion, enemy spawning, collision and
/// damage, then the reaper. The attack's projectile enters the world
/// behind a deferred spawn queue, after the mover already ran, so a
/// projectile first moves on the tick after it is fired. The returned
/// list is the render enumeration of the resulting world and the
/// returned number is the score.
///
/// The postconditions pin down, for every entity that existed before
/// the tick: its position (moved by the controller if it is the player,
/// by the projectile mover if it is a projectile, otherwise kept), its
/// cooldown (counted down, reset on a shot), and that its projectile
/// component, sprite and component set never change while it lives --
/// so a projectile's facing is constant over its lifetime. At most one
/// projectile and at most one enemy are spawned per tick; live enemies
/// and the player end the tick with health at least one or despawned;
/// and every cooldown ends inside [0, ATTACK_PERIOD_US].
#[verifier::rlimit(80)]
pub fn step(world: &mut World, dt_us: i64, input: &InputSnapshot) -> (out: (
    Vec<RenderItem>,
    u64,
))
    requires
        old(world).wf(),
    ensures
        final(world).wf(),
        final(world).slots@.len() == old(world).slots@.len() + (if spec_any_fires(
            spec_after_motion(old(world).slots@, *input, spec_clamp_dt(dt_us as int)),
            spec_clamp_dt(dt_us as int),
            input.fire,
        ) {
            1int
        } else {
            0int
        }) + (if spec_spawn_crosses(
            old(world).spawn_elapsed_us as int,
            spec_clamp_dt(dt_us as int),
        ) {
            1int
        } else {
            0int
        }),
        final(world).spawn_elapsed_us as int == spec_spawn_elapsed(
            old(world).spawn_elapsed_us as int,
            spec_clamp_dt(dt_us as int),
        ),
        final(world).score >= old(world).score,
        forall|j: int|
            0 <= j < old(world).slots@.len() ==> {
                let before = old(world).slots@[j];
                let after = #[trigger] final(world).slots@[j];
                let moved = spec_moved_slot(
                    before,
                    spec_move_x(*input),
                    spec_move_y(*input),
                    spec_clamp_dt(dt_us as int),
                );
                &&& after.transform == spec_flown_slot(moved, spec_clamp_dt(dt_us as int)).transform
                &&& after.cooldown == spec_attacked_slot(
                    moved,
                    spec_clamp_dt(dt_us as int),
                    input.fire,
                ).cooldown
                &&& after.fireball == before.fireball
                &&& after.sprite == before.sprite
                &&& (after.alive ==> before.alive)
                &&& (after.enemy is Some <==> before.enemy is Some)
                &&& (after.player is Some <==> before.player is Some)
            },
        count_players(final(world).slots@) <= count_players(old(world).slots@),
        count_fireballs(final(world).slots@) <= count_fireballs(old(world).slots@) + 1,
        count_enemies(final(world).slots@) <= count_enemies(old(world).slots@) + 1,
        forall|j: int|
            0 <= j < final(world).slots@.len() && is_live_enemy(#[trigger] final(world).slots@[j])
                ==> final(world).slots@[j].enemy.unwrap().health >= 1,
        forall|j: int|
            0 <= j < final(world).slots@.len() && is_live_player(#[trigger] final(world).slots@[j])
                ==> final(world).slots@[j].player.unwrap().health >= 1,
        forall|j: int|
            0 <= j < final(world).slots@.len() && (#[trigger] final(world).slots@[j]).cooldown
                is Some ==> 0 <= final(world).slots@[j].cooldown.unwrap().remaining_us
                <= ATTACK_PERIOD_US,
        out.0@ == spec_render(final(world).slots@, 0),
        out.1 == final(world).score,
{
    let dtc = if dt_us < 0 {
        0
    } else if dt_us > DT_MAX_US {
        DT_MAX_US
    } else {
        dt_us
    };
    proof {
        assert(dtc as int == spec_clamp_dt(dt_us as int));
    }
    let ghost s0 = old(world).slots@;
    let ghost n0 = s0.len();
    let ghost dtg = dtc as int;
    let ghost mx = spec_move_x(*input);
    let ghost my = spec_move_y(*input);

    character_movement(world, input, dtc);
    let ghost s1 = world.slots@;

    // A projectile fired this tick enters the world only after the
    // mover ran: it first moves on the tick after its spawn, as with a
    // deferred spawn queue behind the attack system.
    move_fireball(world, dtc);
    let ghost s2 = world.slots@;
    proof {
        assert(s2 =~= spec_after_motion(s0, *input, dtg));
    }

    attack(world, dtc, input.fire);
    let ghost s3 = world.slots@;
    let ghost fires = spec_any_fires(s2, dtg, input.fire);

    spawn_enemy(world, dtc);
    let ghost s4 = world.slots@;

    check_collisions(world);
    let ghost s5 = world.slots@;

    despawn_enemy(world);
    let ghost s6 = world.slots@;

    proof {
        // The spawner appends at most one slot and touches no other.
        if spec_spawn_crosses(old(world).spawn_elapsed_us as int, dtg) {
            let (x, y) = choose|x: i64, y: i64|
                {
                    &&& crate::components::SPAWN_X_MIN <= x < crate::components::SPAWN_X_MAX
                    &&& crate::components::SPAWN_Y_MIN <= y < crate::components::SPAWN_Y_MAX
                    &&& s4 =~= s3.push(#[trigger] spec_enemy_slot(x, y))
                };
            assert(s4.len() == s3.len() + 1);
            assert(forall|j: int| 0 <= j < s3.len() ==> s4[j] == s3[j]);
        } else {
            assert(s4 =~= s3);
        }
        assert forall|j: int| 0 <= j < n0 implies {
            let before = s0[j];
            let after = #[trigger] s6[j];
            let moved = spec_moved_slot(before, mx, my, dtg);
            &&& after.transform == spec_flown_slot(moved, dtg).transform
            &&& after.cooldown == spec_attacked_slot(moved, dtg, input.fire).cooldown
            &&& after.fireball == before.fireball
            &&& after.sprite == before.sprite
            &&& (after.alive ==> before.alive)
            &&& (after.enemy is Some <==> before.enemy is Some)
            &&& (after.player is Some <==> before.player is Some)
        } by {
            let before = s0[j];
            let moved = spec_moved_slot(before, mx, my, dtg);
            assert(s1[j] == moved);
            assert(s2[j] == spec_flown_slot(moved, dtg));
            assert(s3[j] == spec_attacked_slot(s2[j], dtg, input.fire));
            assert(s3[j].transform == spec_flown_slot(moved, dtg).transform);
            assert(s3[j].cooldown == spec_attacked_slot(moved, dtg, input.fire).cooldown);
            assert(s4[j] == s3[j]);
            assert(slot_evolved(s4[j], s5[j]));
            assert(s6[j] == crate::reaper::spec_reaped_slot(s5[j]));
        }
        crate::world::lemma_count_nonneg(s5, |sl: Slot| crate::reaper::spec_reaped_enemy(sl));
    }

    let render = render_list(world);
    let sc = world.score;
    (render, sc)
}

/// A tick of zero duration with no input leaves a well-formed slot
/// exactly as it was -- positions, facing, cooldowns -- and leaves the
/// spawn timer where it stood, spawning nothing and firing nothing. The
/// one exception is a player standing above the top clamp, whose y
/// position would still be clamped; the precondition leaves that player
/// out.
pub proof fn lemma_zero_dt_no_input_is_noop(sl: Slot, elapsed: int)
    requires
        slot_ok(sl),
        sl.alive && sl.player is Some && sl.transform is Some ==> sl.transform.unwrap().y
            <= Y_TOP,
        0 <= elapsed < SPAWN_PERIOD_US,
    ensures
        spec_moved_slot(sl, 0, 0, 0) == sl,
        spec_attacked_slot(sl, 0, false) == sl,
        spec_flown_slot(sl, 0) == sl,
        !crate::attack::spec_attack_fires(sl, 0, false),
        spec_spawn_elapsed(elapsed, 0) == elapsed,
        !spec_spawn_crosses(elapsed, 0),
{
    if sl.alive && sl.player is Some && sl.transform is Some {
        let t = sl.transform.unwrap();
        let p = sl.player.unwrap();
        assert(p.speed * 0 == 0) by (nonlinear_arith);
        assert(crate::num::spec_axis_step(p.speed as int, 0) == 0);
        assert(spec_moved_slot(sl, 0, 0, 0).transform.unwrap() == t);
        assert(spec_moved_slot(sl, 0, 0, 0).player.unwrap() == p);
        assert(spec_moved_slot(sl, 0, 0, 0) == sl);
    }
    if sl.alive && sl.fireball is Some && sl.transform is Some {
        let f = sl.fireball.unwrap();
        assert(f.speed * 0 == 0) by (nonlinear_arith);
        assert(crate::num::spec_axis_step(f.speed as int, 0) == 0);
        let dir: int = if f.facing_left {
            -1
        } else {
            1
        };
        assert(dir * 0 == 0) by (nonlinear_arith);
        assert(spec_flown_slot(sl, 0).transform.unwrap() == sl.transform.unwrap());
        assert(spec_flown_slot(sl, 0) == sl);
    }
    if sl.alive && sl.player is Some && sl.transform is Some && sl.cooldown is Some {
        assert(spec_attacked_slot(sl, 0, false).cooldown.unwrap() == sl.cooldown.unwrap());
        assert(spec_attacked_slot(sl, 0, false) == sl);
    }
}

} // verus!

//! The player controller and the projectile mover.
//!
//! The controller applies the movement intent to the player: straight
//! steps at full speed, diagonal steps scaled so the speed is preserved,
//! the y position clamped at the top of the walkable band, and the
//! facing following the last horizontal direction. The mover advances
//! each projectile along its facing axis.

use vstd::prelude::*;
use crate::components::{
    slot_ok, Player, Slot, Transform, DT_MAX_US, SPEED_LIMIT, Y_TOP,
};
use crate::input::{spec_move_x, spec_move_y, InputSnapshot};
use crate::num::{
    clip_i64, sat_add_i64, spec_axis_step, spec_diag_step, axis_step, diag_step,
    lemma_axis_step_bounds,
};
use crate::world::{count_enemies, count_fireballs, count_players, lemma_count_pointwise, World};

verus! {

/// The per-axis step length for this tick's intent: the diagonal step
/// when both axes move, the straight step otherwise.
pub open spec fn spec_step_len(speed: int, mx: int, my: int, dt: int) -> int {
    if mx != 0 && my != 0 {
        spec_diag_step(speed, dt)
    } else {
        spec_axis_step(speed, dt)
    }
}

/// Where the player's transform ends up after one tick of movement:
/// each axis advanced by its intent times the step (saturating), then
/// the y position clamped to at most `Y_TOP`.
pub open spec fn spec_moved_transform(t: Transform, speed: int, mx: int, my: int, dt: int) -> Transform {
    let step = spec_step_len(speed, mx, my, dt);
    let x1 = clip_i64(t.x + mx * step);
    let y1 = clip_i64(t.y + my * step);
    let y2 = if y1 > Y_TOP as int {
        Y_TOP as int
    } else {
        y1
    };
    Transform { x: x1 as i64, y: y2 as i64 }
}

/// The player's facing after one tick: moving left faces Left, moving
/// right faces Right, and with no horizontal intent the facing is kept.
pub open spec fn spec_faced_player(p: Player, mx: int) -> Player {
    Player {
        speed: p.speed,
        health: p.health,
        facing_left: if mx < 0 {
            true
        } else if mx > 0 {
            false
        } else {
            p.facing_left
        },
    }
}

/// One slot after the player controller ran: only live slots that carry
/// both a Player and a Transform move; everything else is untouched.
pub open spec fn spec_moved_slot(sl: Slot, mx: int, my: int, dt: int) -> Slot {
    if sl.alive && sl.player is Some && sl.transform is Some {
        Slot {
            alive: sl.alive,
            transform: Some(
                spec_moved_transform(sl.transform.unwrap(), sl.player.unwrap().speed as int, mx, my, dt),
            ),
            sprite: sl.sprite,
            player: Some(spec_faced_player(sl.player.unwrap(), mx)),
            enemy: sl.enemy,
            fireball: sl.fireball,
            cooldown: sl.cooldown,
        }
    } else {
        sl
    }
}

/// Moves every live player entity by the snapshot's movement intent.
pub fn character_movement(world: &mut World, input: &InputSnapshot, dt_us: i64)
    requires
        old(world).wf(),
        0 <= dt_us <= DT_MAX_US,
    ensures
        final(world).slots@.len() == old(world).slots@.len(),
        forall|j: int|
            0 <= j < old(world).slots@.len() ==> final(world).slots@[j] == spec_moved_slot(
                old(world).slots@[j],
                spec_move_x(*input),
                spec_move_y(*input),
                dt_us as int,
            ),
        final(world).spawn_elapsed_us == old(world).spawn_elapsed_us,
        final(world).score == old(world).score,
        final(world).wf(),
        count_players(final(world).slots@) == count_players(old(world).slots@),
        count_enemies(final(world).slots@) == count_enemies(old(world).slots@),
        count_fireballs(final(world).slots@) == count_fireballs(old(world).slots@),
{
    let ghost mx_g = spec_move_x(*input);
    let ghost my_g = spec_move_y(*input);
    let mx: i64 = (if input.right { 1i64 } else { 0i64 }) - (if input.left { 1i64 } else { 0i64 });
    let my: i64 = (if input.up { 1i64 } else { 0i64 }) - (if input.down { 1i64 } else { 0i64 });
    let n = world.slots.len();
    let mut i: usize = 0;
    while i < n
        invariant
            n == old(world).slots@.len(),
            world.slots@.len() == n,
            0 <= i <= n,
            mx as int == mx_g,
            my as int == my_g,
            -1 <= mx <= 1,
            -1 <= my <= 1,
            0 <= dt_us <= DT_MAX_US,
            old(world).wf(),
            forall|j: int|
                0 <= j < i ==> world.slots@[j] == spec_moved_slot(
                    old(world).slots@[j],
                    mx_g,
                    my_g,
                    dt_us as int,
                ),
            forall|j: int| i <= j < n ==> world.slots@[j] == old(world).slots@[j],
            world.spawn_elapsed_us == old(world).spawn_elapsed_us,
            world.score == old(world).score,
        decreases n - i,
    {
        let s = world.slots[i];
        if s.alive {
            if let Some(p) = s.player {
                if let Some(t) = s.transform {
                    proof {
                        assert(slot_ok(old(world).slots@[i as int]));
                    }
                    let step = if mx != 0 && my != 0 {
                        diag_step(p.speed, dt_us)
                    } else {
                        axis_step(p.speed, dt_us)
                    };
                    let dx: i64 = if mx > 0 {
                        step
                    } else if mx < 0 {
                        -step
                    } else {
                        0
                    };
                    let dy: i64 = if my > 0 {
                        step
                    } else if my < 0 {
                        -step
                    } else {
                        0
                    };
                    proof {
                        if mx_g == 1 {
                            assert(mx_g * (step as int) == step as int) by (nonlinear_arith)
                                requires mx_g == 1,
                            ;
                        } else if mx_g == -1 {
                            assert(mx_g * (step as int) == -(step as int)) by (nonlinear_arith)
                                requires mx_g == -1,
                            ;
                        } else {
                            assert(mx_g * (step as int) == 0) by (nonlinear_arith)
                                requires mx_g == 0,
                            ;
                        }
                        if my_g == 1 {
                            assert(my_g * (step as int) == step as int) by (nonlinear_arith)
                                requires my_g == 1,
                            ;
                        } else if my_g == -1 {
                            assert(my_g * (step as int) == -(step as int)) by (nonlinear_arith)
                                requires my_g == -1,
                            ;
                        } else {
                            assert(my_g * (step as int) == 0) by (nonlinear_arith)
                                requires my_g == 0,
                            ;
                        }
                        assert(dx as int == mx_g * (step as int));
                        assert(dy as int == my_g * (step as int));
                    }
                    let x1 = sat_add_i64(t.x, dx);
                    let y1 = sat_add_i64(t.y, dy);
                    let y2 = if y1 > Y_TOP {
                        Y_TOP
                    } else {
                        y1
                    };
                    let moved = Slot {
                        alive: s.alive,
                        transform: Some(Transform { x: x1, y: y2 }),
                        sprite: s.sprite,
                        player: Some(
                            Player {
                                speed: p.speed,
                                health: p.health,
                                facing_left: if mx < 0 {
                                    true
                                } else if mx > 0 {
                                    false
                                } else {
                                    p.facing_left
                                },
                            },
                        ),
                        enemy: s.enemy,
                        fireball: s.fireball,
                        cooldown: s.cooldown,
                    };
                    world.slots[i] = moved;
                    proof {
                        assert(world.slots@[i as int] == spec_moved_slot(
                            old(world).slots@[i as int],
                            mx_g,
                            my_g,
                            dt_us as int,
                        ));
                    }
                }
            }
        }
        i = i + 1;
    }
    proof {
        let ghost s1 = old(world).slots@;
        let ghost s2 = world.slots@;
        assert forall|j: int| 0 <= j < s1.len() implies slot_ok(#[trigger] s2[j]) by {
            assert(slot_ok(s1[j]));
        }
        lemma_count_pointwise(s1, s2, |sl: Slot| crate::components::is_live_player(sl));
        lemma_count_pointwise(s1, s2, |sl: Slot| crate::components::is_live_enemy(sl));
        lemma_count_pointwise(s1, s2, |sl: Slot| crate::components::is_live_fireball(sl));
    }
}

/// One slot after the projectile mover ran: a live projectile with a
/// transform advances along the x axis the way it faces; everything
/// else is untouched.
pub open spec fn spec_flown_slot(sl: Slot, dt: int) -> Slot {
    if sl.alive && sl.fireball is Some && sl.transform is Some {
        let step = spec_axis_step(sl.fireball.unwrap().speed as int, dt);
        let dir: int = if sl.fireball.unwrap().facing_left {
            -1
        } else {
            1
        };
        Slot {
            alive: sl.alive,
            transform: Some(
                Transform {
                    x: clip_i64(sl.transform.unwrap().x + dir * step) as i64,
                    y: sl.transform.unwrap().y,
                },
            ),
            sprite: sl.sprite,
            player: sl.player,
            enemy: sl.enemy,
            fireball: sl.fireball,
            cooldown: sl.cooldown,
        }
    } else {
        sl
    }
}

/// Advances every live projectile along its facing axis.
pub fn move_fireball(world: &mut World, dt_us: i64)
    requires
        old(world).wf(),
        0 <= dt_us <= DT_MAX_US,
    ensures
        final(world).slots@.len() == old(world).slots@.len(),
        forall|j: int|
            0 <= j < old(world).slots@.len() ==> final(world).slots@[j] == spec_flown_slot(
                old(world).slots@[j],
                dt_us as int,
            ),
        final(world).spawn_elapsed_us == old(world).spawn_elapsed_us,
        final(world).score == old(world).score,
        final(world).wf(),
        count_players(final(world).slots@) == count_players(old(world).slots@),
        count_enemies(final(world).slots@) == count_enemies(old(world).slots@),
        count_fireballs(final(world).slots@) == count_fireballs(old(world).slots@),
{
    let n = world.slots.len();
    let mut i: usize = 0;
    while i < n
        invariant
            n == old(world).slots@.len(),
            world.slots@.len() == n,
            0 <= i <= n,
            0 <= dt_us <= DT_MAX_US,
            old(world).wf(),
            forall|j: int|
                0 <= j < i ==> world.slots@[j] == spec_flown_slot(
                    old(world).slots@[j],
                    dt_us as int,
                ),
            forall|j: int| i <= j < n ==> world.slots@[j] == old(world).slots@[j],
            world.spawn_elapsed_us == old(world).spawn_elapsed_us,
            world.score == old(world).score,
        decreases n - i,
    {
        let s = world.slots[i];
        if s.alive {
            if let Some(fb) = s.fireball {
                if let Some(t) = s.transform {
                    proof {
                        assert(slot_ok(old(world).slots@[i as int]));
                    }
                    let step = axis_step(fb.speed, dt_us);
                    let dx: i64 = if fb.facing_left {
                        -step
                    } else {
                        step
                    };
                    proof {
                        let dir: int = if fb.facing_left { -1 } else { 1 };
                        if fb.facing_left {
                            assert(dir * (step as int) == -(step as int)) by (nonlinear_arith)
                                requires dir == -1,
                            ;
                        } else {
                            assert(dir * (step as int) == step as int) by (nonlinear_arith)
                                requires dir == 1,
                            ;
                        }
                        assert(dx as int == dir * (step as int));
                    }
                    let x1 = sat_add_i64(t.x, dx);
                    let moved = Slot {
                        alive: s.alive,
                        transform: Some(Transform { x: x1, y: t.y }),
                        sprite: s.sprite,
                        player: s.player,
                        enemy: s.enemy,
                        fireball: s.fireball,
                        cooldown: s.cooldown,
                    };
                    world.slots[i] = moved;
                }
            }
        }
        i = i + 1;
    }
    proof {
        let ghost s1 = old(world).slots@;
        let ghost s2 = world.slots@;
        assert forall|j: int| 0 <= j < s1.len() implies slot_ok(#[trigger] s2[j]) by {
            assert(slot_ok(s1[j]));
        }
        lemma_count_pointwise(s1, s2, |sl: Slot| crate::components::is_live_player(sl));
        lemma_count_pointwise(s1, s2, |sl: Slot| crate::components::is_live_enemy(sl));
        lemma_count_pointwise(s1, s2, |sl: Slot| crate::components::is_live_fireball(sl));
    }
}

/// A player standing at the top clamp who keeps moving up stays exactly
/// at the clamp.
pub proof fn lemma_y_clamp(t: Transform, speed: int, mx: int, my: int, dt: int)
    requires
        t.y == Y_TOP,
        my >= 0,
        -1 <= mx <= 1,
        my <= 1,
        0 <= speed <= SPEED_LIMIT,
        0 <= dt <= DT_MAX_US,
    ensures
        spec_moved_transform(t, speed, mx, my, dt).y == Y_TOP,
{
    lemma_axis_step_bounds(speed, dt);
    let step = spec_step_len(speed, mx, my, dt);
    assert(0 <= my * step) by (nonlinear_arith)
        requires
            0 <= my,
            0 <= step,
    ;
}

} // verus!

//! The attack system: ticks the player's cooldown down and, on a fire
//! edge with the cooldown elapsed, spawns a projectile at the player's
//! position travelling the way the player faces, then resets the
//! cooldown to its period.

use vstd::prelude::*;
use crate::components::{
    is_live_enemy, is_live_fireball, is_live_player, slot_ok, AttackCooldown, Slot,
    DT_MAX_US,
};
use crate::world::{
    count_enemies, count_fireballs, count_players, lemma_count_at_least_two,
    lemma_count_pointwise, spec_fireball_slot, World,
};

verus! {

/// The cooldown's remaining time after one tick: counted down by the
/// tick's duration, floored at zero.
pub open spec fn spec_ticked_remaining(c: AttackCooldown, dt: int) -> int {
    if c.remaining_us - dt < 0 {
        0
    } else {
        c.remaining_us - dt
    }
}

/// Whether this slot fires this tick: it is the live player, it has a
/// position and a cooldown, the fire key was edge-pressed, and the
/// cooldown has elapsed after this tick's count-down.
pub open spec fn spec_attack_fires(sl: Slot, dt: int, fire: bool) -> bool {
    &&& sl.alive
    &&& sl.player is Some
    &&& sl.transform is Some
    &&& sl.cooldown is Some
    &&& fire
    &&& spec_ticked_remaining(sl.cooldown.unwrap(), dt) == 0
}

/// One slot after the attack system ran: the cooldown of a live player
/// slot is counted down, and reset to its period if the slot fired;
/// every other slot is untouched.
pub open spec fn spec_attacked_slot(sl: Slot, dt: int, fire: bool) -> Slot {
    if sl.alive && sl.player is Some && sl.transform is Some && sl.cooldown is Some {
        let c = sl.cooldown.unwrap();
        let rem = spec_ticked_remaining(c, dt);
        let new_rem: int = if fire && rem == 0 {
            c.period_us as int
        } else {
            rem
        };
        Slot {
            alive: sl.alive,
            transform: sl.transform,
            sprite: sl.sprite,
            player: sl.player,
            enemy: sl.enemy,
            fireball: sl.fireball,
            cooldown: Some(AttackCooldown { remaining_us: new_rem as i64, period_us: c.period_us }),
        }
    } else {
        sl
    }
}

/// Some slot of `s` fires this tick.
pub open spec fn spec_any_fires(s: Seq<Slot>, dt: int, fire: bool) -> bool {
    exists|j: int| 0 <= j < s.len() && #[trigger] spec_attack_fires(s[j], dt, fire)
}

/// Ticks every live player's cooldown down and fires at most one
/// projectile. A fire edge while the cooldown is still positive spawns
/// nothing and leaves the cooldown to its count-down alone.
pub fn attack(world: &mut World, dt_us: i64, fire: bool)
    requires
        old(world).wf(),
        0 <= dt_us <= DT_MAX_US,
    ensures
        forall|j: int|
            0 <= j < old(world).slots@.len() ==> final(world).slots@[j] == spec_attacked_slot(
                old(world).slots@[j],
                dt_us as int,
                fire,
            ),
        spec_any_fires(old(world).slots@, dt_us as int, fire) ==> final(world).slots@.len()
            == old(world).slots@.len() + 1,
        !spec_any_fires(old(world).slots@, dt_us as int, fire) ==> final(world).slots@.len()
            == old(world).slots@.len(),
        forall|j: int|
            0 <= j < old(world).slots@.len() && #[trigger] spec_attack_fires(
                old(world).slots@[j],
                dt_us as int,
                fire,
            ) ==> final(world).slots@[old(world).slots@.len() as int] == spec_fireball_slot(
                old(world).slots@[j].transform.unwrap(),
                old(world).slots@[j].player.unwrap().facing_left,
            ),
        final(world).spawn_elapsed_us == old(world).spawn_elapsed_us,
        final(world).score == old(world).score,
        final(world).wf(),
        count_players(final(world).slots@) == count_players(old(world).slots@),
        count_enemies(final(world).slots@) == count_enemies(old(world).slots@),
        count_fireballs(final(world).slots@) == count_fireballs(old(world).slots@) + (
        if spec_any_fires(old(world).slots@, dt_us as int, fire) {
            1int
        } else {
            0int
        }),
{
    let ghost dt_g = dt_us as int;
    let n = world.slots.len();
    let mut pending: Option<Slot> = None;
    let ghost mut fired_at: int = -1;
    let mut i: usize = 0;
    while i < n
        invariant
            n == old(world).slots@.len(),
            world.slots@.len() == n,
            0 <= i <= n,
            0 <= dt_us <= DT_MAX_US,
            dt_g == dt_us as int,
            old(world).wf(),
            forall|j: int|
                0 <= j < i ==> world.slots@[j] == spec_attacked_slot(old(world).slots@[j], dt_g, fire),
            forall|j: int| i <= j < n ==> world.slots@[j] == old(world).slots@[j],
            world.spawn_elapsed_us == old(world).spawn_elapsed_us,
            world.score == old(world).score,
            pending is Some <==> (exists|j: int|
                0 <= j < i && #[trigger] spec_attack_fires(old(world).slots@[j], dt_g, fire)),
            pending is Some ==> {
                &&& 0 <= fired_at < i
                &&& spec_attack_fires(old(world).slots@[fired_at], dt_g, fire)
                &&& pending.unwrap() == spec_fireball_slot(
                    old(world).slots@[fired_at].transform.unwrap(),
                    old(world).slots@[fired_at].player.unwrap().facing_left,
                )
            },
        decreases n - i,
    {
        let s = world.slots[i];
        if s.alive && s.player.is_some() && s.transform.is_some() && s.cooldown.is_some() {
            proof {
                assert(slot_ok(old(world).slots@[i as int]));
            }
            let c = match s.cooldown {
                Some(c) => c,
                None => AttackCooldown { remaining_us: 0, period_us: 0 },
            };
            let rem = if c.remaining_us >= dt_us {
                c.remaining_us - dt_us
            } else {
                0
            };
            let fires_now = fire && rem == 0;
            let new_rem = if fires_now {
                c.period_us
            } else {
                rem
            };
            let updated = Slot {
                alive: s.alive,
                transform: s.transform,
                sprite: s.sprite,
                player: s.player,
                enemy: s.enemy,
                fireball: s.fireball,
                cooldown: Some(AttackCooldown { remaining_us: new_rem, period_us: c.period_us }),
            };
            world.slots[i] = updated;
            if fires_now {
                proof {
                    assert(spec_attack_fires(old(world).slots@[i as int], dt_g, fire));
                    if pending is Some {
                        lemma_count_at_least_two(
                            old(world).slots@,
                            |sl: Slot| is_live_player(sl),
                            fired_at,
                            i as int,
                        );
                        assert(false);
                    }
                    fired_at = i as int;
                }
                let t = match s.transform {
                    Some(t) => t,
                    None => crate::components::Transform { x: 0, y: 0 },
                };
                let p_facing = match s.player {
                    Some(p) => p.facing_left,
                    None => false,
                };
                pending = Some(
                    Slot {
                        alive: true,
                        transform: Some(t),
                        sprite: Some(
                            crate::components::Sprite {
                                w: crate::components::FIREBALL_W,
                                h: crate::components::FIREBALL_H,
                                texture: crate::components::TextureKey::FireballTex,
                            },
                        ),
                        player: None,
                        enemy: None,
                        fireball: Some(
                            crate::components::Fireball {
                                speed: crate::components::FIREBALL_SPEED,
                                damage: crate::components::FIREBALL_DAMAGE,
                                facing_left: p_facing,
                            },
                        ),
                        cooldown: None,
                    },
                );
            }
        }
        i = i + 1;
    }
    proof {
        let ghost s1 = old(world).slots@;
        let ghost s2 = world.slots@;
        assert forall|j: int| 0 <= j < s1.len() implies slot_ok(#[trigger] s2[j]) by {
            assert(slot_ok(s1[j]));
        }
        lemma_count_pointwise(s1, s2, |sl: Slot| is_live_player(sl));
        lemma_count_pointwise(s1, s2, |sl: Slot| is_live_enemy(sl));
        lemma_count_pointwise(s1, s2, |sl: Slot| is_live_fireball(sl));
    }
    match pending {
        Some(bundle) => {
            world.spawn(bundle);
        },
        None => {},
    }
    proof {
        let s1 = old(world).slots@;
        assert forall|j: int|
            0 <= j < s1.len() && #[trigger] spec_attack_fires(s1[j], dt_g, fire) implies world.slots@[s1.len() as int]
            == spec_fireball_slot(
            s1[j].transform.unwrap(),
            s1[j].player.unwrap().facing_left,
        ) by {
            if j != fired_at {
                let f = |sl: Slot| is_live_player(sl);
                if j < fired_at {
                    lemma_count_at_least_two(s1, f, j, fired_at);
                } else {
                    lemma_count_at_least_two(s1, f, fired_at, j);
                }
            }
        }
    }
}

} // verus!

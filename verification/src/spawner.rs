//! The enemy spawner: a repeating timer that, each time it crosses its
//! period, creates one enemy at a uniformly random ground position.

use vstd::prelude::*;
use rand::Rng;
use crate::components::{
    DT_MAX_US, SPAWN_PERIOD_US, SPAWN_X_MAX, SPAWN_X_MIN, SPAWN_Y_MAX, SPAWN_Y_MIN,
};
use crate::world::{
    count_enemies, count_fireballs, count_players, spec_enemy_slot, spawn_enemy_at, World,
};

verus! {

/// Relies on rand::Rng::gen_range of rand (thread-local generator) on a
/// `Range<i64>`: it panics only on an empty range, which the
/// precondition rules out, and returns a value at or above the lower
/// bound and strictly under the upper one. Nothing more holds of a
/// random draw.
#[verifier::external_body]
fn random_in_range(lo: i64, hi: i64) -> (r: i64)
    requires
        lo < hi,
    ensures
        lo <= r < hi,
{
    rand::thread_rng().gen_range(lo..hi)
}

/// Whether this tick's advance makes the repeating spawn timer cross
/// its period.
pub open spec fn spec_spawn_crosses(elapsed: int, dt: int) -> bool {
    elapsed + dt >= SPAWN_PERIOD_US
}

/// The repeating spawn timer after one tick: advanced by the tick's
/// duration, wrapped (not stopped) on a crossing.
pub open spec fn spec_spawn_elapsed(elapsed: int, dt: int) -> int {
    if spec_spawn_crosses(elapsed, dt) {
        elapsed + dt - SPAWN_PERIOD_US
    } else {
        elapsed + dt
    }
}

/// Advances the spawn timer and, on a crossing, spawns one enemy at the
/// given position. This is the whole spawner except the random draw, so
/// it is exact for every position handed in.
pub fn spawn_enemy_with(world: &mut World, dt_us: i64, x: i64, y: i64)
    requires
        old(world).wf(),
        0 <= dt_us <= DT_MAX_US,
    ensures
        final(world).spawn_elapsed_us as int == spec_spawn_elapsed(
            old(world).spawn_elapsed_us as int,
            dt_us as int,
        ),
        spec_spawn_crosses(old(world).spawn_elapsed_us as int, dt_us as int) ==> final(world).slots@ =~= old(world).slots@.push(spec_enemy_slot(x, y)),
        !spec_spawn_crosses(old(world).spawn_elapsed_us as int, dt_us as int) ==> final(world).slots@ =~= old(world).slots@,
        final(world).score == old(world).score,
        final(world).wf(),
        count_players(final(world).slots@) == count_players(old(world).slots@),
        count_fireballs(final(world).slots@) == count_fireballs(old(world).slots@),
        count_enemies(final(world).slots@) == count_enemies(old(world).slots@) + (
        if spec_spawn_crosses(old(world).spawn_elapsed_us as int, dt_us as int) {
            1int
        } else {
            0int
        }),
{
    let advanced = world.spawn_elapsed_us + dt_us;
    if advanced >= SPAWN_PERIOD_US {
        world.spawn_elapsed_us = advanced - SPAWN_PERIOD_US;
        spawn_enemy_at(world, x, y);
    } else {
        world.spawn_elapsed_us = advanced;
    }
}

/// The spawner as the tick driver runs it: the position of a spawned
/// enemy is drawn uniformly from the configured ground ranges.
pub fn spawn_enemy(world: &mut World, dt_us: i64)
    requires
        old(world).wf(),
        0 <= dt_us <= DT_MAX_US,
    ensures
        final(world).spawn_elapsed_us as int == spec_spawn_elapsed(
            old(world).spawn_elapsed_us as int,
            dt_us as int,
        ),
        spec_spawn_crosses(old(world).spawn_elapsed_us as int, dt_us as int) ==> (exists|
            x: i64,
            y: i64,
        |
            {
                &&& SPAWN_X_MIN <= x < SPAWN_X_MAX
                &&& SPAWN_Y_MIN <= y < SPAWN_Y_MAX
                &&& final(world).slots@ =~= old(world).slots@.push(#[trigger] spec_enemy_slot(x, y))
            }),
        !spec_spawn_crosses(old(world).spawn_elapsed_us as int, dt_us as int) ==> final(world).slots@ =~= old(world).slots@,
        final(world).score == old(world).score,
        final(world).wf(),
        count_players(final(world).slots@) == count_players(old(world).slots@),
        count_fireballs(final(world).slots@) == count_fireballs(old(world).slots@),
        count_enemies(final(world).slots@) == count_enemies(old(world).slots@) + (
        if spec_spawn_crosses(old(world).spawn_elapsed_us as int, dt_us as int) {
            1int
        } else {
            0int
        }),
{
    let x = random_in_range(SPAWN_X_MIN, SPAWN_X_MAX);
    let y = random_in_range(SPAWN_Y_MIN, SPAWN_Y_MAX);
    spawn_enemy_with(world, dt_us, x, y);
}

} // verus!

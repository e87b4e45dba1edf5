//! The input mapper: turns a per-tick snapshot of held and edge-pressed
//! keys into a movement intent in {-1, 0, +1} x {-1, 0, +1} and a
//! fire-edge flag.

use vstd::prelude::*;

verus! {

/// What the host observed on the input device this tick: which movement
/// keys are held, and whether the fire key was pressed this tick (an
/// edge, reported once per physical press).
#[derive(Clone, Copy, PartialEq, Eq, Structural, Debug)]
pub struct InputSnapshot {
    pub up: bool,
    pub down: bool,
    pub left: bool,
    pub right: bool,
    pub fire: bool,
}

impl InputSnapshot {
    /// A snapshot with nothing held and nothing pressed.
    pub fn empty() -> (r: InputSnapshot)
        ensures
            r == (InputSnapshot { up: false, down: false, left: false, right: false, fire: false }),
    {
        InputSnapshot { up: false, down: false, left: false, right: false, fire: false }
    }
}

/// Horizontal movement intent: right minus left.
pub open spec fn spec_move_x(i: InputSnapshot) -> int {
    (if i.right { 1int } else { 0int }) - (if i.left { 1int } else { 0int })
}

/// Vertical movement intent: up minus down.
pub open spec fn spec_move_y(i: InputSnapshot) -> int {
    (if i.up { 1int } else { 0int }) - (if i.down { 1int } else { 0int })
}

/// Maps the snapshot to the movement vector and the fire edge.
pub fn map_input(i: &InputSnapshot) -> (r: (i64, i64, bool))
    ensures
        r.0 as int == spec_move_x(*i),
        r.1 as int == spec_move_y(*i),
        r.2 == i.fire,
{
    let mx: i64 = (if i.right { 1i64 } else { 0i64 }) - (if i.left { 1i64 } else { 0i64 });
    let my: i64 = (if i.up { 1i64 } else { 0i64 }) - (if i.down { 1i64 } else { 0i64 });
    (mx, my, i.fire)
}

} // verus!

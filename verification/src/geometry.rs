//! Grid position and movement-delta value types.

use vstd::prelude::*;

verus! {

/// A position on the dungeon grid. Both axes count from zero; a coordinate is
/// valid for a floor when `x` lies in `[0, width)` and `y` in `[0, height)`.
#[derive(Debug, PartialEq, Eq, Structural, Clone, Copy)]
pub struct Coordinate {
    pub x: usize,
    pub y: usize,
}

/// One turn's movement intent: each axis is `-1`, `0` or `1`, covering the
/// eight compass directions and "no movement". The delta is consumed by the
/// turn it is applied in and reset to `{0, 0}` afterwards.
#[derive(Debug, PartialEq, Eq, Structural, Clone, Copy)]
pub struct Vec2d {
    pub x: isize,
    pub y: isize,
}

/// The value of a movement delta after it has been cleared.
pub open spec fn cleared_delta(v: Vec2d) -> Vec2d {
    Vec2d { x: 0, y: 0 }
}

impl Vec2d {
    /// True when each axis is one of `-1`, `0`, `1`.
    pub open spec fn is_unit_step(self) -> bool {
        -1 <= self.x <= 1 && -1 <= self.y <= 1
    }

    /// Clear the delta to `{0, 0}`, as happens unconditionally at the end of
    /// every turn.
    pub fn reset(&mut self)
        ensures
            *final(self) == cleared_delta(*old(self)),
    {
        self.x = 0;
        self.y = 0;
    }
}

/// Clearing a movement delta is idempotent: clearing an already cleared delta
/// gives the same value, so the second of two consecutive resets is a no-op.
pub proof fn lemma_cleared_delta_idempotent(v: Vec2d)
    ensures
        cleared_delta(cleared_delta(v)) == cleared_delta(v),
{
}

} // verus!

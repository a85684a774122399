//! The entity model: positioned, combat-capable mobs.

use vstd::prelude::*;

use crate::geometry::Coordinate;
use crate::rng::ratio_draw;

verus! {

/// A mob: the player or an enemy, distinguished by its role tag. A mob whose
/// `hp` has reached zero is marked for removal and is cleared from its floor's
/// collection at the end of the turn; hit points never wrap below zero.
pub struct Mob {
    pub tag: String,
    pub pos: Coordinate,
    pub strength: u8,
    pub hp: u8,
}

/// The role tag that marks the player mob.
pub open spec fn player_tag() -> Seq<char> {
    "player"@
}

/// The role tag that marks an enemy mob.
pub open spec fn enemy_tag() -> Seq<char> {
    "enemy"@
}

/// One hit point of damage, saturating at zero.
pub open spec fn sat_dec(hp: u8) -> u8 {
    if hp == 0 {
        0
    } else {
        (hp - 1) as u8
    }
}

impl Mob {
    /// True when this mob carries the player tag.
    pub open spec fn is_player(self) -> bool {
        self.tag@ == player_tag()
    }

    /// True when this mob carries the enemy tag.
    pub open spec fn is_enemy(self) -> bool {
        self.tag@ == enemy_tag()
    }

    /// A field-for-field copy of this mob.
    pub fn duplicate(&self) -> (m: Mob)
        ensures
            m == *self,
    {
        Mob { tag: self.tag.clone(), pos: self.pos, strength: self.strength, hp: self.hp }
    }

    /// Resolve one combat exchange as the attacker against `other`: a single
    /// weighted coin flip that this mob wins with probability
    /// `strength / (strength + other.strength)`. An attacker without
    /// strength surely loses; against a strengthless defender it surely
    /// wins.
    pub fn calc_combat(&self, other: &Mob) -> (r: bool)
        requires
            self.strength + other.strength > 0,
        ensures
            self.strength == 0 ==> !r,
            other.strength == 0 ==> r,
    {
        let numerator = self.strength as u32;
        let denominator = self.strength as u32 + other.strength as u32;
        ratio_draw(numerator, denominator)
    }
}

} // verus!

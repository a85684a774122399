//! The dungeon floor: grid bounds, the mob collection and visibility marks.

use vstd::prelude::*;

use vstd::string::StringExecFns;

use crate::geometry::Coordinate;
use crate::mob::Mob;
use crate::sampler::gen_rand_points_in_area;
use crate::sampler::in_area;
use crate::text::str_eq;

verus! {

/// A fog-of-war mark: a coordinate that has been revealed to the player,
/// independent of current mob positions.
pub enum FogOfWar {
    Coordinate(Coordinate),
}

/// The coordinate a fog-of-war mark reveals.
pub open spec fn fog_coord(f: FogOfWar) -> Coordinate {
    match f {
        FogOfWar::Coordinate(c) => c,
    }
}

/// True when some tag in `tags` has the character sequence `t`.
pub open spec fn some_tag_matches(tags: Seq<&str>, t: Seq<char>) -> bool {
    exists|i: int| 0 <= i < tags.len() && (#[trigger] tags[i])@ == t
}

/// The subsequence of mobs that still have hit points left, in collection
/// order.
pub open spec fn live_mobs(s: Seq<Mob>) -> Seq<Mob> {
    s.filter(|m: Mob| m.hp > 0)
}

/// One level of the dungeon: the rectangular grid `[0, width) x [0, height)`,
/// every mob on it, and the coordinates revealed so far. The floor owns its
/// mobs exclusively; every mob position must lie inside the grid.
pub struct DungeonFloor {
    pub height: usize,
    pub width: usize,
    pub fog_of_wars: Vec<FogOfWar>,
    pub mobs: Vec<Mob>,
}

impl DungeonFloor {
    /// The given mob's position lies inside this floor's grid.
    pub open spec fn mob_in_bounds(self, m: Mob) -> bool {
        m.pos.x < self.width && m.pos.y < self.height
    }

    /// Every mob stands inside the grid.
    pub open spec fn mobs_wf(self) -> bool {
        forall|i: int| 0 <= i < self.mobs@.len() ==> self.mob_in_bounds(#[trigger] self.mobs@[i])
    }

    /// Every fog-of-war mark lies inside the grid.
    pub open spec fn fog_wf(self) -> bool {
        forall|i: int|
            0 <= i < self.fog_of_wars@.len() ==> fog_coord(#[trigger] self.fog_of_wars@[i]).x
                < self.width && fog_coord(self.fog_of_wars@[i]).y < self.height
    }

    /// The floor's invariant: all recorded coordinates lie inside the grid.
    pub open spec fn wf(self) -> bool {
        self.mobs_wf() && self.fog_wf()
    }

    /// Some fog-of-war mark reveals the cell `(x, y)`.
    pub open spec fn fog_marked(self, x: int, y: int) -> bool {
        exists|i: int|
            0 <= i < self.fog_of_wars@.len() && fog_coord(#[trigger] self.fog_of_wars@[i]).x == x
                && fog_coord(self.fog_of_wars@[i]).y == y
    }

    /// Some mob whose tag is among `tags` stands on the cell `(x, y)`.
    pub open spec fn mob_marked(self, tags: Seq<&str>, x: int, y: int) -> bool {
        exists|i: int|
            0 <= i < self.mobs@.len() && some_tag_matches(tags, (#[trigger] self.mobs@[i]).tag@)
                && self.mobs@[i].pos.x == x && self.mobs@[i].pos.y == y
    }

    /// Whether the cell `(x, y)` carries a fog-of-war mark.
    fn fog_at(&self, x: usize, y: usize) -> (r: bool)
        ensures
            r == self.fog_marked(x as int, y as int),
    {
        let mut i: usize = 0;
        while i < self.fog_of_wars.len()
            invariant
                i <= self.fog_of_wars@.len(),
                forall|j: int|
                    0 <= j < i ==> !(fog_coord(#[trigger] self.fog_of_wars@[j]).x == x && fog_coord(
                        self.fog_of_wars@[j],
                    ).y == y),
            decreases self.fog_of_wars@.len() - i,
        {
            match &self.fog_of_wars[i] {
                FogOfWar::Coordinate(c) => {
                    if c.x == x && c.y == y {
                        assert(fog_coord(self.fog_of_wars@[i as int]).x == x);
                        return true;
                    }
                },
            }
            i += 1;
        }
        false
    }

    /// Build the visibility mask: a fresh `height x width` boolean grid with
    /// `true` exactly at the revealed cells, indexed as `mask[y][x]`. A mark
    /// outside the grid is a defect in the caller, excluded by the floor
    /// invariant rather than silently dropped from the mask.
    pub fn fog_of_war_maskmap(&self) -> (maskmap: Vec<Vec<bool>>)
        requires
            self.wf(),
        ensures
            maskmap@.len() == self.height,
            forall|y: int| 0 <= y < self.height ==> (#[trigger] maskmap@[y])@.len() == self.width,
            forall|y: int, x: int|
                0 <= y < self.height && 0 <= x < self.width ==> (#[trigger] maskmap@[y]@[x])
                    == self.fog_marked(x, y),
    {
        let mut maskmap: Vec<Vec<bool>> = Vec::new();
        let mut y: usize = 0;
        while y < self.height
            invariant
                y <= self.height,
                maskmap@.len() == y,
                forall|r: int| 0 <= r < y ==> (#[trigger] maskmap@[r])@.len() == self.width,
                forall|r: int, x: int|
                    0 <= r < y && 0 <= x < self.width ==> (#[trigger] maskmap@[r]@[x])
                        == self.fog_marked(x, r),
            decreases self.height - y,
        {
            let mut row: Vec<bool> = Vec::new();
            let mut x: usize = 0;
            while x < self.width
                invariant
                    x <= self.width,
                    row@.len() == x,
                    forall|c: int| 0 <= c < x ==> (#[trigger] row@[c]) == self.fog_marked(c, y as int),
                decreases self.width - x,
            {
                row.push(self.fog_at(x, y));
                x += 1;
            }
            maskmap.push(row);
            y += 1;
        }
        maskmap
    }

    /// Whether some tag in `tags` equals `t`.
    fn tags_contain(tags: &[&str], t: &str) -> (r: bool)
        ensures
            r == some_tag_matches(tags@, t@),
    {
        let mut i: usize = 0;
        while i < tags.len()
            invariant
                i <= tags@.len(),
                forall|j: int| 0 <= j < i ==> (#[trigger] tags@[j])@ != t@,
            decreases tags@.len() - i,
        {
            if str_eq(tags[i], t) {
                assert(tags@[i as int]@ == t@);
                return true;
            }
            i += 1;
        }
        false
    }

    /// Whether a mob with a tag among `tags` stands on the cell `(x, y)`.
    fn mob_at(&self, tags: &[&str], x: usize, y: usize) -> (r: bool)
        ensures
            r == self.mob_marked(tags@, x as int, y as int),
    {
        let mut i: usize = 0;
        while i < self.mobs.len()
            invariant
                i <= self.mobs@.len(),
                forall|j: int|
                    0 <= j < i ==> !(some_tag_matches(tags@, (#[trigger] self.mobs@[j]).tag@)
                        && self.mobs@[j].pos.x == x && self.mobs@[j].pos.y == y),
            decreases self.mobs@.len() - i,
        {
            let m = &self.mobs[i];
            if m.pos.x == x && m.pos.y == y && Self::tags_contain(tags, m.tag.as_str()) {
                assert(some_tag_matches(tags@, self.mobs@[i as int].tag@));
                return true;
            }
            i += 1;
        }
        false
    }

    /// Build the occupancy mask for the given tag filter: a fresh
    /// `height x width` boolean grid with `true` exactly at the cells where a
    /// mob with a matching tag stands, indexed as `mask[y][x]`. A mob outside
    /// the grid is a defect in the caller, excluded by the floor invariant
    /// rather than silently left out of the mask.
    pub fn mob_maskmap(&self, tags: &[&str]) -> (maskmap: Vec<Vec<bool>>)
        requires
            self.wf(),
        ensures
            maskmap@.len() == self.height,
            forall|y: int| 0 <= y < self.height ==> (#[trigger] maskmap@[y])@.len() == self.width,
            forall|y: int, x: int|
                0 <= y < self.height && 0 <= x < self.width ==> (#[trigger] maskmap@[y]@[x])
                    == self.mob_marked(tags@, x, y),
    {
        let mut maskmap: Vec<Vec<bool>> = Vec::new();
        let mut y: usize = 0;
        while y < self.height
            invariant
                y <= self.height,
                maskmap@.len() == y,
                forall|r: int| 0 <= r < y ==> (#[trigger] maskmap@[r])@.len() == self.width,
                forall|r: int, x: int|
                    0 <= r < y && 0 <= x < self.width ==> (#[trigger] maskmap@[r]@[x])
                        == self.mob_marked(tags@, x, r),
            decreases self.height - y,
        {
            let mut row: Vec<bool> = Vec::new();
            let mut x: usize = 0;
            while x < self.width
                invariant
                    x <= self.width,
                    row@.len() == x,
                    forall|c: int|
                        0 <= c < x ==> (#[trigger] row@[c]) == self.mob_marked(
                            tags@,
                            c,
                            y as int,
                        ),
                decreases self.width - x,
            {
                row.push(self.mob_at(tags, x, y));
                x += 1;
            }
            maskmap.push(row);
            y += 1;
        }
        maskmap
    }

    /// The index of the first mob carrying `tag`, in collection order, or
    /// `None` when no mob carries it.
    pub fn mob_index_by_tag(&self, tag: &str) -> (r: Option<usize>)
        ensures
            match r {
                Some(i) => i < self.mobs@.len() && self.mobs@[i as int].tag@ == tag@ && forall|
                    j: int,
                |
                    0 <= j < i ==> (#[trigger] self.mobs@[j]).tag@ != tag@,
                None => forall|j: int|
                    0 <= j < self.mobs@.len() ==> (#[trigger] self.mobs@[j]).tag@ != tag@,
            },
    {
        let mut i: usize = 0;
        while i < self.mobs.len()
            invariant
                i <= self.mobs@.len(),
                forall|j: int| 0 <= j < i ==> (#[trigger] self.mobs@[j]).tag@ != tag@,
            decreases self.mobs@.len() - i,
        {
            if str_eq(self.mobs[i].tag.as_str(), tag) {
                return Some(i);
            }
            i += 1;
        }
        None
    }

    /// Remove every mob whose hit points have reached zero, keeping the
    /// survivors in collection order. This is the cleanup pass that ends a
    /// turn: it compacts the collection in a single pass instead of removing
    /// by index while scanning.
    pub fn remove_dead_mobs(&mut self)
        ensures
            final(self).mobs@ == live_mobs(old(self).mobs@),
            final(self).width == old(self).width,
            final(self).height == old(self).height,
            final(self).fog_of_wars@ == old(self).fog_of_wars@,
            forall|i: int| 0 <= i < final(self).mobs@.len() ==> (#[trigger] final(self).mobs@[i]).hp
                > 0,
            old(self).mobs_wf() ==> final(self).mobs_wf(),
    {
        let mut kept: Vec<Mob> = Vec::new();
        let mut i: usize = 0;
        while i < self.mobs.len()
            invariant
                i <= self.mobs@.len(),
                kept@ == live_mobs(self.mobs@.take(i as int)),
            decreases self.mobs@.len() - i,
        {
            proof {
                lemma_live_mobs_take_step(self.mobs@, i as int);
            }
            if self.mobs[i].hp > 0 {
                let m = self.mobs[i].duplicate();
                kept.push(m);
            }
            i += 1;
        }
        proof {
            assert(self.mobs@.take(self.mobs@.len() as int) =~= self.mobs@);
            broadcast use vstd::seq_lib::group_filter_ensures;

            assert forall|j: int| 0 <= j < live_mobs(self.mobs@).len() implies (
            #[trigger] live_mobs(self.mobs@)[j]).hp > 0 by {
                assert(live_mobs(self.mobs@) == self.mobs@.filter(|m: Mob| m.hp > 0));
            }
            if self.mobs_wf() {
                assert forall|j: int| 0 <= j < live_mobs(self.mobs@).len() implies self.mob_in_bounds(
                    #[trigger] live_mobs(self.mobs@)[j],
                ) by {
                    let s = self.mobs@;
                    let pred = |m: Mob| m.hp > 0;
                    let elem = s.filter(pred)[j];
                    assert(s.filter(pred).contains(elem));
                    s.lemma_filter_contains_rev(pred, elem);
                    let k = choose|k: int| 0 <= k < s.len() && s[k] == elem;
                    assert(self.mob_in_bounds(s[k]));
                }
            }
        }
        self.mobs = kept;
    }
}

/// Build a fresh floor of the given size: the player stands at `player_pos`,
/// and a random number of enemies (fewer than the number of remaining cells)
/// are placed on pairwise distinct cells, never on the player's cell.
pub fn generate_floor(
    width: usize,
    height: usize,
    player_pos: Coordinate,
    player_strength: u8,
    player_hp: u8,
    enemy_strength: u8,
    enemy_hp: u8,
) -> (floor: DungeonFloor)
    requires
        player_pos.x < width,
        player_pos.y < height,
        1 < width * height <= usize::MAX,
    ensures
        floor.wf(),
        floor.width == width,
        floor.height == height,
        floor.fog_of_wars@.len() == 0,
        floor.mobs@.len() >= 1,
        floor.mobs@[0].is_player(),
        floor.mobs@[0].pos == player_pos,
        floor.mobs@[0].strength == player_strength,
        floor.mobs@[0].hp == player_hp,
        forall|i: int|
            1 <= i < floor.mobs@.len() ==> (#[trigger] floor.mobs@[i]).is_enemy()
                && floor.mobs@[i].strength == enemy_strength && floor.mobs@[i].hp == enemy_hp
                && floor.mobs@[i].pos != player_pos,
        forall|i: int, j: int|
            1 <= i < j < floor.mobs@.len() ==> (#[trigger] floor.mobs@[i]).pos != (
            #[trigger] floor.mobs@[j]).pos,
        floor.mobs@.len() < width * height,
{
    let mut excluded: Vec<Coordinate> = Vec::new();
    excluded.push(player_pos);
    let ghost excluded_view = excluded@;
    let sampled = gen_rand_points_in_area(
        0,
        0,
        width,
        height,
        None,
        Some(width * height - 1),
        excluded,
    );
    let enemy_coords = match sampled {
        Ok(v) => v,
        Err(_) => vstd::pervasive::unreached(),
    };
    proof {
        assert forall|k: int|
            0 <= k < enemy_coords@.len() implies (#[trigger] enemy_coords@[k])
            != player_pos by {
            assert(excluded_view[0] == player_pos);
            if enemy_coords@[k] == player_pos {
                assert(excluded_view.contains(enemy_coords@[k]));
            }
        }
    }

    let mut mobs: Vec<Mob> = Vec::new();
    mobs.push(
        Mob {
            tag: String::from_str("player"),
            pos: player_pos,
            strength: player_strength,
            hp: player_hp,
        },
    );
    let mut i: usize = 0;
    while i < enemy_coords.len()
        invariant
            i <= enemy_coords@.len(),
            mobs@.len() == 1 + i,
            mobs@[0].is_player(),
            mobs@[0].pos == player_pos,
            mobs@[0].strength == player_strength,
            mobs@[0].hp == player_hp,
            forall|j: int| 1 <= j < mobs@.len() ==> (#[trigger] mobs@[j]).pos == enemy_coords@[j
                - 1],
            forall|j: int|
                1 <= j < mobs@.len() ==> (#[trigger] mobs@[j]).is_enemy() && mobs@[j].strength
                    == enemy_strength && mobs@[j].hp == enemy_hp,
            enemy_coords@.no_duplicates(),
            forall|k: int|
                0 <= k < enemy_coords@.len() ==> in_area(
                    #[trigger] enemy_coords@[k],
                    0,
                    0,
                    width as int,
                    height as int,
                ) && enemy_coords@[k] != player_pos,
        decreases enemy_coords@.len() - i,
    {
        mobs.push(
            Mob {
                tag: String::from_str("enemy"),
                pos: enemy_coords[i],
                strength: enemy_strength,
                hp: enemy_hp,
            },
        );
        i += 1;
    }
    DungeonFloor { height, width, fog_of_wars: Vec::new(), mobs }
}

/// Filtering the live mobs out of a prefix one element longer appends that
/// element exactly when it is still alive.
proof fn lemma_live_mobs_take_step(s: Seq<Mob>, i: int)
    requires
        0 <= i < s.len(),
    ensures
        live_mobs(s.take(i + 1)) == if s[i].hp > 0 {
            live_mobs(s.take(i)).push(s[i])
        } else {
            live_mobs(s.take(i))
        },
{
    reveal(Seq::filter);
    assert(s.take(i + 1).drop_last() =~= s.take(i));
    assert(s.take(i + 1).last() == s[i]);
}

} // verus!

//! The turn engine: one player movement intent resolved into a tentative
//! clamped move, combat against every enemy on the target cell, a commit or
//! revert of the move, the cleanup of dead mobs, and the delta reset.

use vstd::prelude::*;

use crate::floor::live_mobs;
use crate::floor::DungeonFloor;
use crate::geometry::cleared_delta;
use crate::geometry::Coordinate;
use crate::geometry::Vec2d;
use crate::mob::sat_dec;
use crate::mob::Mob;
use crate::text::str_eq;

verus! {

/// One axis of the tentative move: the position plus the delta, clamped to
/// `[0, bound)`; a step that would underflow past zero keeps the previous
/// value instead of wrapping.
pub open spec fn moved_axis(v: int, dv: int, bound: int) -> int {
    if v + dv < 0 {
        v
    } else if v + dv > bound - 1 {
        bound - 1
    } else {
        v + dv
    }
}

/// The tentative target cell of a move: both axes clamped independently.
pub open spec fn clamped_target(pos: Coordinate, d: Vec2d, width: int, height: int) -> Coordinate {
    Coordinate {
        x: moved_axis(pos.x as int, d.x as int, width) as usize,
        y: moved_axis(pos.y as int, d.y as int, height) as usize,
    }
}

/// Apply one axis of a movement delta, clamping to `[0, bound)`.
pub fn clamp_move_axis(v: usize, dv: isize, bound: usize) -> (r: usize)
    requires
        -1 <= dv <= 1,
        v < bound,
    ensures
        r == moved_axis(v as int, dv as int, bound as int),
        r < bound,
{
    if dv < 0 {
        if v == 0 {
            v
        } else {
            v - 1
        }
    } else if dv > 0 {
        if v >= bound - 1 {
            bound - 1
        } else {
            v + 1
        }
    } else {
        v
    }
}

/// Movement clamping holds at the edges: a step left from the left edge stays
/// at zero, and a step right from the right edge stays at the right edge.
pub proof fn lemma_clamp_at_edges(bound: int)
    requires
        bound >= 1,
    ensures
        moved_axis(0, -1, bound) == 0,
        moved_axis(bound - 1, 1, bound) == bound - 1,
{
}

/// One observable combat outcome within a turn, in the order the exchanges
/// happened, for the caller's message display.
#[derive(Debug, PartialEq, Eq, Structural, Clone, Copy)]
pub enum CombatEvent {
    /// The player won an exchange; the enemy's hit points afterwards.
    PlayerHitEnemy { enemy_hp: u8 },
    /// An enemy survived its exchange and struck back; the player's hit
    /// points at that moment.
    EnemyHitPlayer { player_hp: u8 },
}

/// Index `p` holds the first mob carrying the player tag.
pub open spec fn is_first_player_index(s: Seq<Mob>, p: int) -> bool {
    0 <= p < s.len() && s[p].is_player() && forall|j: int|
        0 <= j < p ==> !(#[trigger] s[j]).is_player()
}

/// Mob `j` is an enemy standing on the target cell, other than the player.
pub open spec fn is_encounter(s: Seq<Mob>, p: int, target: Coordinate, j: int) -> bool {
    0 <= j < s.len() && j != p && s[j].is_enemy() && s[j].pos == target
}

/// The scan's running state after the first `i` collection slots have been
/// visited, given the draw outcomes `wins`: the player's hit points so far,
/// and the combat events emitted so far, in order. Every encounter is one
/// exchange: a winning draw takes one hit point from the enemy (saturating
/// at zero) and announces `PlayerHitEnemy`; a losing draw takes one from the
/// player instead; an enemy left with hit points strikes back with
/// `EnemyHitPlayer`.
pub open spec fn scan_state(
    pre: Seq<Mob>,
    p: int,
    target: Coordinate,
    wins: Seq<bool>,
    i: int,
) -> (u8, Seq<CombatEvent>)
    decreases i,
{
    if i <= 0 {
        (pre[p].hp, Seq::empty())
    } else {
        let prior = scan_state(pre, p, target, wins, i - 1);
        let j = i - 1;
        if is_encounter(pre, p, target, j) {
            let enemy_hp = if wins[j] {
                sat_dec(pre[j].hp)
            } else {
                pre[j].hp
            };
            let hp_now = if wins[j] {
                prior.0
            } else {
                sat_dec(prior.0)
            };
            let struck = if wins[j] {
                seq![CombatEvent::PlayerHitEnemy { enemy_hp }]
            } else {
                Seq::empty()
            };
            let blocked = if enemy_hp > 0 {
                seq![CombatEvent::EnemyHitPlayer { player_hp: hp_now }]
            } else {
                Seq::empty()
            };
            (hp_now, prior.1 + struck + blocked)
        } else {
            prior
        }
    }
}

/// The scan state after `i` slots depends only on the first `i` draw
/// outcomes.
proof fn lemma_scan_state_prefix(
    pre: Seq<Mob>,
    p: int,
    target: Coordinate,
    w1: Seq<bool>,
    w2: Seq<bool>,
    i: int,
)
    requires
        forall|j: int| 0 <= j < i ==> w1[j] == w2[j],
    ensures
        scan_state(pre, p, target, w1, i) == scan_state(pre, p, target, w2, i),
    decreases i,
{
    if i > 0 {
        lemma_scan_state_prefix(pre, p, target, w1, w2, i - 1);
    }
}

/// How the combat scan and the move commit transform the mob collection for
/// one run of combat draws. `pre` is the collection before the turn, `post`
/// the collection after the commit but before cleanup, `p` the player's
/// index, `target` the clamped target cell, `wins` the outcome of each
/// slot's draw (meaningful at the encounters), and `events` the emitted
/// combat events.
///
/// Tags, strengths and every non-player position are untouched. Each
/// encountered enemy fights exactly one exchange in which exactly one side
/// loses exactly one hit point, saturating at zero: the enemy on a winning
/// draw, the player on a losing one. A draw against a strengthless enemy is
/// surely won, and a strengthless player surely loses. The player's final
/// hit points and the event sequence are exactly those of `scan_state` over
/// the whole collection. Only the player can move: combat consumes the
/// turn's movement, so any encounter leaves the player on the pre-combat
/// position, even when the enemy fell. Without any encounter the outcome is
/// fully determined: the player steps onto the target cell and nothing else
/// changes.
pub open spec fn scan_outcome(
    pre: Seq<Mob>,
    post: Seq<Mob>,
    p: int,
    target: Coordinate,
    wins: Seq<bool>,
    events: Seq<CombatEvent>,
) -> bool {
    &&& post.len() == pre.len()
    &&& wins.len() == pre.len()
    &&& 0 <= p < pre.len()
    &&& forall|j: int|
        0 <= j < pre.len() && j != p ==> (#[trigger] post[j]).tag == pre[j].tag && post[j].pos
            == pre[j].pos && post[j].strength == pre[j].strength
    &&& forall|j: int|
        0 <= j < pre.len() && j != p && !is_encounter(pre, p, target, j) ==> (
        #[trigger] post[j]).hp == pre[j].hp
    &&& forall|j: int|
        #[trigger] is_encounter(pre, p, target, j) ==> post[j].hp == (if wins[j] {
            sat_dec(pre[j].hp)
        } else {
            pre[j].hp
        })
    &&& forall|j: int|
        #[trigger] is_encounter(pre, p, target, j) && pre[j].strength == 0 ==> wins[j]
    &&& forall|j: int|
        #[trigger] is_encounter(pre, p, target, j) && pre[p].strength == 0 ==> !wins[j]
    &&& post[p].tag == pre[p].tag
    &&& post[p].strength == pre[p].strength
    &&& post[p].hp == scan_state(pre, p, target, wins, pre.len() as int).0
    &&& events == scan_state(pre, p, target, wins, pre.len() as int).1
    &&& (post[p].pos == target || post[p].pos == pre[p].pos)
    &&& ((exists|j: int| is_encounter(pre, p, target, j)) ==> post[p].pos == pre[p].pos)
    &&& ((forall|j: int| !is_encounter(pre, p, target, j)) ==> post == pre.update(
        p,
        (Mob { tag: pre[p].tag, pos: target, strength: pre[p].strength, hp: pre[p].hp }),
    ))
}

/// The full effect of one turn on the floor's mob collection: for some run
/// of combat draws, a combat scan against the clamped target cell when a
/// player is present, followed by the cleanup pass that drops every mob
/// without hit points. Without a player no combat happens and no event is
/// emitted; only the cleanup runs.
pub open spec fn turn_outcome(
    pre: DungeonFloor,
    post: DungeonFloor,
    delta: Vec2d,
    events: Seq<CombatEvent>,
) -> bool {
    if exists|p: int| is_first_player_index(pre.mobs@, p) {
        let p = choose|p: int| is_first_player_index(pre.mobs@, p);
        let target = clamped_target(pre.mobs@[p].pos, delta, pre.width as int, pre.height as int);
        exists|mid: Seq<Mob>, wins: Seq<bool>|
            #[trigger] scan_outcome(pre.mobs@, mid, p, target, wins, events) && post.mobs@
                == live_mobs(mid)
    } else {
        post.mobs@ == live_mobs(pre.mobs@) && events.len() == 0
    }
}

/// No enemy stands on the cell the delta points at, so the turn's outcome is
/// deterministic: no combat happens.
pub open spec fn no_encounters(pre: DungeonFloor, delta: Vec2d) -> bool {
    forall|p: int|
        is_first_player_index(pre.mobs@, p) ==> (forall|j: int|
            !is_encounter(
                pre.mobs@,
                p,
                clamped_target(pre.mobs@[p].pos, delta, pre.width as int, pre.height as int),
                j,
            ))
}

/// At most one index can be the first player index.
proof fn lemma_first_player_unique(s: Seq<Mob>, p1: int, p2: int)
    requires
        is_first_player_index(s, p1),
        is_first_player_index(s, p2),
    ensures
        p1 == p2,
{
    if p1 < p2 {
        assert(!s[p1].is_player());
    }
    if p2 < p1 {
        assert(!s[p2].is_player());
    }
}

impl DungeonFloor {
    /// Every player-enemy pairing has a positive combined strength, so each
    /// combat draw's weighted coin is defined.
    pub open spec fn combat_defined(self) -> bool {
        forall|i: int, j: int|
            0 <= i < self.mobs@.len() && 0 <= j < self.mobs@.len() && (
            #[trigger] self.mobs@[i]).is_player() && (#[trigger] self.mobs@[j]).is_enemy()
                ==> self.mobs@[i].strength + self.mobs@[j].strength > 0
    }

    /// Resolve one full player turn against this floor.
    ///
    /// The movement delta is applied to the player's position, clamped per
    /// axis to the grid; every enemy standing on the target cell fights one
    /// weighted exchange in which exactly one side loses one hit point; the
    /// move commits only when no enemy was encountered, since combat
    /// consumes the turn's movement; mobs without hit points are removed;
    /// and the delta is cleared unconditionally. The returned events
    /// describe the exchanges in order, for the caller's message log.
    pub fn advance_turn(&mut self, movement: &mut Vec2d) -> (events: Vec<CombatEvent>)
        requires
            old(self).wf(),
            old(self).combat_defined(),
            old(movement).is_unit_step(),
        ensures
            final(self).wf(),
            final(self).width == old(self).width,
            final(self).height == old(self).height,
            final(self).fog_of_wars@ == old(self).fog_of_wars@,
            *final(movement) == cleared_delta(*old(movement)),
            forall|i: int|
                0 <= i < final(self).mobs@.len() ==> (#[trigger] final(self).mobs@[i]).hp > 0,
            turn_outcome(*old(self), *final(self), *old(movement), events@),
            no_encounters(*old(self), *old(movement)) ==> events@.len() == 0,
    {
        let mut events: Vec<CombatEvent> = Vec::new();
        let player_opt = self.mob_index_by_tag("player");
        match player_opt {
            Some(p) => {
                let ghost pre = self.mobs@;
                let ghost p_int = p as int;
                proof {
                    assert(is_first_player_index(pre, p_int));
                }
                let player_pos = self.mobs[p].pos;
                let mut player_hp = self.mobs[p].hp;
                let new_x = clamp_move_axis(player_pos.x, movement.x, self.width);
                let new_y = clamp_move_axis(player_pos.y, movement.y, self.height);
                let target = Coordinate { x: new_x, y: new_y };
                proof {
                    assert(target == clamped_target(
                        pre[p_int].pos,
                        *old(movement),
                        self.width as int,
                        self.height as int,
                    ));
                }
                let mut rejected = false;
                let ghost mut rejected_at: int = 0;
                let ghost mut wins: Seq<bool> = Seq::new(pre.len(), |j: int| false);
                let mut i: usize = 0;
                while i < self.mobs.len()
                    invariant
                        pre == old(self).mobs@,
                        self.mobs@.len() == pre.len(),
                        i <= pre.len(),
                        p_int == p as int,
                        0 <= p_int < pre.len(),
                        is_first_player_index(pre, p_int),
                        self.width == old(self).width,
                        self.height == old(self).height,
                        self.fog_of_wars@ == old(self).fog_of_wars@,
                        old(self).wf(),
                        old(self).combat_defined(),
                        target == clamped_target(
                            pre[p_int].pos,
                            *old(movement),
                            self.width as int,
                            self.height as int,
                        ),
                        target.x < self.width,
                        target.y < self.height,
                        self.mobs@[p_int] == pre[p_int],
                        wins.len() == pre.len(),
                        forall|j: int|
                            0 <= j < pre.len() ==> (#[trigger] self.mobs@[j]).tag == pre[j].tag
                                && self.mobs@[j].pos == pre[j].pos && self.mobs@[j].strength
                                == pre[j].strength,
                        forall|j: int|
                            0 <= j < pre.len() && j != p_int && !is_encounter(
                                pre,
                                p_int,
                                target,
                                j,
                            ) ==> (#[trigger] self.mobs@[j]).hp == pre[j].hp,
                        forall|j: int|
                            i <= j < pre.len() && j != p_int ==> (#[trigger] self.mobs@[j]).hp
                                == pre[j].hp,
                        forall|j: int|
                            0 <= j < i && #[trigger] is_encounter(pre, p_int, target, j)
                                ==> self.mobs@[j].hp == (if wins[j] {
                                sat_dec(pre[j].hp)
                            } else {
                                pre[j].hp
                            }),
                        forall|j: int|
                            0 <= j < i && #[trigger] is_encounter(pre, p_int, target, j)
                                && pre[j].strength == 0 ==> wins[j],
                        forall|j: int|
                            0 <= j < i && #[trigger] is_encounter(pre, p_int, target, j)
                                && pre[p_int].strength == 0 ==> !wins[j],
                        player_hp == scan_state(pre, p_int, target, wins, i as int).0,
                        events@ == scan_state(pre, p_int, target, wins, i as int).1,
                        rejected ==> 0 <= rejected_at < i && is_encounter(
                            pre,
                            p_int,
                            target,
                            rejected_at,
                        ),
                        !rejected ==> (forall|j: int|
                            0 <= j < i ==> !is_encounter(pre, p_int, target, j)),
                        (forall|j: int| 0 <= j < i ==> !is_encounter(pre, p_int, target, j)) ==> (
                        player_hp == pre[p_int].hp && events@.len() == 0 && self.mobs@ == pre),
                    decreases pre.len() - i,
                {
                    if i != p {
                        let is_enemy_mob = str_eq(self.mobs[i].tag.as_str(), "enemy");
                        if is_enemy_mob && self.mobs[i].pos == target {
                            proof {
                                assert(self.mobs@[i as int].tag == pre[i as int].tag);
                                assert(pre[p_int].is_player() && pre[i as int].is_enemy());
                                assert(is_encounter(pre, p_int, target, i as int));
                                assert(self.mobs@[p_int].strength + self.mobs@[i as int].strength
                                    > 0);
                            }
                            rejected = true;
                            proof {
                                rejected_at = i as int;
                            }
                            let ghost wins_before = wins;
                            let won = self.mobs[p].calc_combat(&self.mobs[i]);
                            proof {
                                wins = wins.update(i as int, won);
                                lemma_scan_state_prefix(
                                    pre,
                                    p_int,
                                    target,
                                    wins_before,
                                    wins,
                                    i as int,
                                );
                            }
                            if won {
                                let updated = {
                                    let m = &self.mobs[i];
                                    let new_hp = if m.hp > 0 {
                                        m.hp - 1
                                    } else {
                                        0
                                    };
                                    Mob {
                                        tag: m.tag.clone(),
                                        pos: m.pos,
                                        strength: m.strength,
                                        hp: new_hp,
                                    }
                                };
                                let enemy_hp = updated.hp;
                                self.mobs[i] = updated;
                                events.push(CombatEvent::PlayerHitEnemy { enemy_hp });
                            } else {
                                player_hp = if player_hp > 0 {
                                    player_hp - 1
                                } else {
                                    0
                                };
                            }
                            if self.mobs[i].hp > 0 {
                                events.push(CombatEvent::EnemyHitPlayer { player_hp });
                            }
                            proof {
                                let ii = i as int;
                                assert(wins[ii] == won);
                                assert(player_hp == scan_state(pre, p_int, target, wins, ii + 1).0);
                                assert(events@ =~= scan_state(pre, p_int, target, wins, ii + 1).1);
                            }
                        }
                    }
                    proof {
                        let ii = i as int;
                        if !is_encounter(pre, p_int, target, ii) {
                            assert(scan_state(pre, p_int, target, wins, ii + 1) == scan_state(
                                pre,
                                p_int,
                                target,
                                wins,
                                ii,
                            ));
                        }
                    }
                    i += 1;
                }
                let final_pos = if rejected {
                    player_pos
                } else {
                    target
                };
                let updated_player = {
                    let m = &self.mobs[p];
                    Mob { tag: m.tag.clone(), pos: final_pos, strength: m.strength, hp: player_hp }
                };
                self.mobs[p] = updated_player;
                let ghost mid = self.mobs@;
                proof {
                    if rejected {
                        assert(is_encounter(pre, p_int, target, rejected_at));
                    }
                    if forall|j: int| !is_encounter(pre, p_int, target, j) {
                        assert(mid =~= pre.update(
                            p_int,
                            (Mob {
                                tag: pre[p_int].tag,
                                pos: target,
                                strength: pre[p_int].strength,
                                hp: pre[p_int].hp,
                            }),
                        ));
                    }
                    assert(scan_outcome(pre, mid, p_int, target, wins, events@));
                    assert(self.mobs_wf());
                }
                self.remove_dead_mobs();
                proof {
                    let p2 = choose|q: int| is_first_player_index(pre, q);
                    lemma_first_player_unique(pre, p_int, p2);
                    assert(scan_outcome(pre, mid, p2, target, wins, events@) && self.mobs@
                        == live_mobs(mid));
                }
            },
            None => {
                proof {
                    assert forall|q: int| !is_first_player_index(self.mobs@, q) by {
                        if 0 <= q < self.mobs@.len() {
                            assert(self.mobs@[q].tag@ != "player"@);
                        }
                    }
                }
                self.remove_dead_mobs();
            },
        }
        movement.reset();
        events
    }
}

/// A turn driven by a zero movement delta never changes any mob's position:
/// every mob that survives the turn stands where a mob of the same tag
/// already stood, whatever the combat draws returned.
pub proof fn lemma_zero_delta_keeps_positions(
    pre: DungeonFloor,
    post: DungeonFloor,
    delta: Vec2d,
    events: Seq<CombatEvent>,
)
    requires
        pre.wf(),
        turn_outcome(pre, post, delta, events),
        delta.x == 0,
        delta.y == 0,
    ensures
        forall|i: int|
            0 <= i < post.mobs@.len() ==> exists|j: int|
                0 <= j < pre.mobs@.len() && (#[trigger] post.mobs@[i]).pos == pre.mobs@[j].pos
                    && post.mobs@[i].tag == pre.mobs@[j].tag,
{
    let pred = |m: Mob| m.hp > 0;
    if exists|p: int| is_first_player_index(pre.mobs@, p) {
        let p = choose|p: int| is_first_player_index(pre.mobs@, p);
        let target = clamped_target(pre.mobs@[p].pos, delta, pre.width as int, pre.height as int);
        assert(target == pre.mobs@[p].pos);
        let (mid, wins) = choose|mid: Seq<Mob>, wins: Seq<bool>|
            #[trigger] scan_outcome(pre.mobs@, mid, p, target, wins, events) && post.mobs@
                == live_mobs(mid);
        assert forall|i: int| 0 <= i < post.mobs@.len() implies exists|j: int|
            0 <= j < pre.mobs@.len() && (#[trigger] post.mobs@[i]).pos == pre.mobs@[j].pos
                && post.mobs@[i].tag == pre.mobs@[j].tag by {
            let elem = post.mobs@[i];
            assert(mid.filter(pred).contains(elem));
            mid.lemma_filter_contains_rev(pred, elem);
            let j = choose|j: int| 0 <= j < mid.len() && mid[j] == elem;
            assert(mid[j].pos == pre.mobs@[j].pos && mid[j].tag == pre.mobs@[j].tag);
        }
    } else {
        assert forall|i: int| 0 <= i < post.mobs@.len() implies exists|j: int|
            0 <= j < pre.mobs@.len() && (#[trigger] post.mobs@[i]).pos == pre.mobs@[j].pos
                && post.mobs@[i].tag == pre.mobs@[j].tag by {
            let elem = post.mobs@[i];
            assert(pre.mobs@.filter(pred).contains(elem));
            pre.mobs@.lemma_filter_contains_rev(pred, elem);
            let j = choose|j: int| 0 <= j < pre.mobs@.len() && pre.mobs@[j] == elem;
            assert(post.mobs@[i].pos == pre.mobs@[j].pos);
        }
    }
}

} // verus!


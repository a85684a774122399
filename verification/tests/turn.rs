use ascension_army::floor::DungeonFloor;
use ascension_army::geometry::{Coordinate, Vec2d};
use ascension_army::mob::Mob;
use ascension_army::turn::{clamp_move_axis, CombatEvent};

fn mob(tag: &str, x: usize, y: usize, strength: u8, hp: u8) -> Mob {
    Mob {
        tag: tag.to_string(),
        pos: Coordinate { x, y },
        strength,
        hp,
    }
}

#[test]
fn test_clamp_left_edge_holds_position() {
    assert_eq!(0, clamp_move_axis(0, -1, 10));
}

#[test]
fn test_clamp_right_edge_holds_position() {
    assert_eq!(9, clamp_move_axis(9, 1, 10));
}

#[test]
fn test_clamp_interior_moves() {
    assert_eq!(4, clamp_move_axis(5, -1, 10));
    assert_eq!(6, clamp_move_axis(5, 1, 10));
    assert_eq!(5, clamp_move_axis(5, 0, 10));
}

#[test]
fn test_advance_turn_moves_player_without_encounter() {
    let mut floor = DungeonFloor {
        height: 5,
        width: 5,
        fog_of_wars: vec![],
        mobs: vec![mob("player", 1, 1, 2, 3), mob("enemy", 4, 4, 1, 1)],
    };
    let mut delta = Vec2d { x: 1, y: 0 };
    let events = floor.advance_turn(&mut delta);
    assert!(events.is_empty());
    assert_eq!(Coordinate { x: 2, y: 1 }, floor.mobs[0].pos);
    assert_eq!(0, delta.x);
    assert_eq!(0, delta.y);
}

#[test]
fn test_advance_turn_clamps_at_edges() {
    let mut floor = DungeonFloor {
        height: 3,
        width: 3,
        fog_of_wars: vec![],
        mobs: vec![mob("player", 0, 2, 2, 3)],
    };
    let mut delta = Vec2d { x: -1, y: 1 };
    floor.advance_turn(&mut delta);
    assert_eq!(Coordinate { x: 0, y: 2 }, floor.mobs[0].pos);
}

#[test]
fn test_advance_turn_zero_delta_keeps_positions() {
    let mut floor = DungeonFloor {
        height: 4,
        width: 4,
        fog_of_wars: vec![],
        mobs: vec![
            mob("player", 1, 1, 2, 3),
            mob("enemy", 0, 0, 1, 1),
            mob("enemy", 3, 2, 1, 1),
        ],
    };
    let mut delta = Vec2d { x: 0, y: 0 };
    floor.advance_turn(&mut delta);
    assert_eq!(Coordinate { x: 1, y: 1 }, floor.mobs[0].pos);
    assert_eq!(Coordinate { x: 0, y: 0 }, floor.mobs[1].pos);
    assert_eq!(Coordinate { x: 3, y: 2 }, floor.mobs[2].pos);
}

#[test]
fn test_advance_turn_never_leaves_zero_hp_mobs() {
    for _ in 0..100 {
        let mut floor = DungeonFloor {
            height: 3,
            width: 3,
            fog_of_wars: vec![],
            mobs: vec![mob("player", 0, 0, 2, 30), mob("enemy", 1, 0, 1, 1)],
        };
        for _ in 0..5 {
            let mut delta = Vec2d { x: 1, y: 0 };
            floor.advance_turn(&mut delta);
            for m in floor.mobs.iter() {
                assert!(m.hp > 0);
            }
        }
    }
}

#[test]
fn test_advance_turn_combat_blocks_move_even_on_kill() {
    // The player always wins against a strength-zero enemy, yet combat
    // consumes the movement: the player stays put this turn and the fallen
    // enemy is cleared.
    let mut floor = DungeonFloor {
        height: 3,
        width: 3,
        fog_of_wars: vec![],
        mobs: vec![mob("player", 0, 0, 2, 3), mob("enemy", 1, 0, 0, 1)],
    };
    let mut delta = Vec2d { x: 1, y: 0 };
    let events = floor.advance_turn(&mut delta);
    assert_eq!(1, floor.mobs.len());
    assert_eq!("player", floor.mobs[0].tag);
    assert_eq!(Coordinate { x: 0, y: 0 }, floor.mobs[0].pos);
    assert_eq!(3, floor.mobs[0].hp);
    assert_eq!(vec![CombatEvent::PlayerHitEnemy { enemy_hp: 0 }], events);
}

#[test]
fn test_advance_turn_losing_exchange_costs_player_hp() {
    // A strength-zero player always loses; the surviving enemy blocks the
    // move and the player pays one hit point.
    let mut floor = DungeonFloor {
        height: 3,
        width: 3,
        fog_of_wars: vec![],
        mobs: vec![mob("player", 0, 0, 0, 3), mob("enemy", 1, 0, 1, 5)],
    };
    let mut delta = Vec2d { x: 1, y: 0 };
    let events = floor.advance_turn(&mut delta);
    assert_eq!(Coordinate { x: 0, y: 0 }, floor.mobs[0].pos);
    assert_eq!(2, floor.mobs[0].hp);
    assert_eq!(5, floor.mobs[1].hp);
    assert_eq!(vec![CombatEvent::EnemyHitPlayer { player_hp: 2 }], events);
}

#[test]
fn test_delta_reset_is_idempotent() {
    let mut delta = Vec2d { x: -1, y: 1 };
    delta.reset();
    let after_first = delta;
    delta.reset();
    assert_eq!(after_first, delta);
    assert_eq!(Vec2d { x: 0, y: 0 }, delta);
}

#[test]
fn test_combat_win_rate_approaches_two_thirds() {
    let player = mob("player", 0, 0, 2, 3);
    let enemy = mob("enemy", 1, 0, 1, 1);
    let trials = 10000;
    let mut wins = 0;
    for _ in 0..trials {
        if player.calc_combat(&enemy) {
            wins += 1;
        }
    }
    // Expected 2/3 of 10000; allow a wide statistical margin.
    assert!(wins > 6200, "win rate too low: {wins}");
    assert!(wins < 7100, "win rate too high: {wins}");
}

#[test]
fn test_combat_sure_outcomes() {
    let strong = mob("player", 0, 0, 2, 3);
    let helpless = mob("enemy", 1, 0, 0, 1);
    for _ in 0..20 {
        assert!(strong.calc_combat(&helpless));
        assert!(!helpless.calc_combat(&strong));
    }
}

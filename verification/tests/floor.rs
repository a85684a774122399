use ascension_army::floor::{DungeonFloor, FogOfWar, generate_floor};
use ascension_army::geometry::Coordinate;
use ascension_army::mob::Mob;

fn mob(tag: &str, x: usize, y: usize, strength: u8, hp: u8) -> Mob {
    Mob {
        tag: tag.to_string(),
        pos: Coordinate { x, y },
        strength,
        hp,
    }
}

#[test]
fn test_mob_maskmap_dimensions_follow_height_and_width() {
    let floor = DungeonFloor {
        height: 2,
        width: 4,
        fog_of_wars: vec![],
        mobs: vec![mob("enemy", 3, 1, 1, 1)],
    };
    let mask = floor.mob_maskmap(&["enemy"]);
    assert_eq!(2, mask.len());
    for row in mask.iter() {
        assert_eq!(4, row.len());
    }
}

#[test]
fn test_mob_maskmap_indexes_row_then_column() {
    let floor = DungeonFloor {
        height: 2,
        width: 4,
        fog_of_wars: vec![],
        mobs: vec![mob("enemy", 3, 1, 1, 1)],
    };
    let mask = floor.mob_maskmap(&["enemy"]);
    assert!(mask[1][3]);
    assert!(!mask[1][1]);
    let marked = mask
        .iter()
        .flatten()
        .filter(|cell| **cell)
        .count();
    assert_eq!(1, marked);
}

#[test]
fn test_mob_maskmap_filters_by_tag() {
    let floor = DungeonFloor {
        height: 3,
        width: 3,
        fog_of_wars: vec![],
        mobs: vec![mob("player", 0, 0, 2, 3), mob("enemy", 2, 2, 1, 1)],
    };
    let mask = floor.mob_maskmap(&["player"]);
    assert!(mask[0][0]);
    assert!(!mask[2][2]);
    let both = floor.mob_maskmap(&["player", "enemy"]);
    assert!(both[0][0]);
    assert!(both[2][2]);
}

#[test]
fn test_fog_of_war_maskmap_dimensions_and_marks() {
    let floor = DungeonFloor {
        height: 2,
        width: 3,
        fog_of_wars: vec![FogOfWar::Coordinate(Coordinate { x: 2, y: 0 })],
        mobs: vec![],
    };
    let mask = floor.fog_of_war_maskmap();
    assert_eq!(2, mask.len());
    for row in mask.iter() {
        assert_eq!(3, row.len());
    }
    assert!(mask[0][2]);
    let marked = mask
        .iter()
        .flatten()
        .filter(|cell| **cell)
        .count();
    assert_eq!(1, marked);
}

#[test]
fn test_mob_index_by_tag_finds_first_match() {
    let floor = DungeonFloor {
        height: 3,
        width: 3,
        fog_of_wars: vec![],
        mobs: vec![
            mob("enemy", 0, 0, 1, 1),
            mob("player", 1, 1, 2, 3),
            mob("enemy", 2, 2, 1, 1),
        ],
    };
    assert_eq!(Some(1), floor.mob_index_by_tag("player"));
    assert_eq!(Some(0), floor.mob_index_by_tag("enemy"));
    assert_eq!(None, floor.mob_index_by_tag("dragon"));
}

#[test]
fn test_remove_dead_mobs_keeps_survivors_in_order() {
    let mut floor = DungeonFloor {
        height: 3,
        width: 3,
        fog_of_wars: vec![],
        mobs: vec![
            mob("enemy", 0, 0, 1, 0),
            mob("player", 1, 1, 2, 3),
            mob("enemy", 2, 2, 1, 0),
            mob("enemy", 0, 2, 1, 2),
        ],
    };
    floor.remove_dead_mobs();
    assert_eq!(2, floor.mobs.len());
    assert_eq!("player", floor.mobs[0].tag);
    assert_eq!(3, floor.mobs[0].hp);
    assert_eq!("enemy", floor.mobs[1].tag);
    assert_eq!(Coordinate { x: 0, y: 2 }, floor.mobs[1].pos);
}

#[test]
fn test_generate_floor_places_player_and_distinct_enemies() {
    for _ in 0..20 {
        let player_pos = Coordinate { x: 2, y: 3 };
        let floor = generate_floor(5, 4, player_pos, 2, 3, 1, 1);
        assert_eq!(5, floor.width);
        assert_eq!(4, floor.height);
        assert_eq!("player", floor.mobs[0].tag);
        assert_eq!(player_pos, floor.mobs[0].pos);
        assert_eq!(2, floor.mobs[0].strength);
        assert_eq!(3, floor.mobs[0].hp);
        assert!(floor.mobs.len() < 20);
        for i in 1..floor.mobs.len() {
            let enemy = &floor.mobs[i];
            assert_eq!("enemy", enemy.tag);
            assert!(enemy.pos.x < 5 && enemy.pos.y < 4);
            assert_ne!(player_pos, enemy.pos);
            for j in 1..floor.mobs.len() {
                if i != j {
                    assert_ne!(enemy.pos, floor.mobs[j].pos);
                }
            }
        }
    }
}

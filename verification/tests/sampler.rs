use ascension_army::geometry::Coordinate;
use ascension_army::sampler::{gen_rand_points_in_area, SamplerError};

#[test]
fn test_random_points_in_area_valid_points_num() {
    assert_eq!(
        6,
        gen_rand_points_in_area(0, 0, 6, 6, Some(6), None, vec![])
            .unwrap()
            .len(),
    );
}

#[test]
fn test_random_points_in_points_fullfil_area() {
    assert_eq!(
        9,
        gen_rand_points_in_area(0, 0, 3, 3, Some(9), None, vec![])
            .unwrap()
            .len()
    );
}

#[test]
fn test_random_points_in_area_points_num_overflows_area_size() {
    assert_eq!(
        Err(SamplerError::InvalidArgument),
        gen_rand_points_in_area(0, 0, 2, 2, Some(6), None, vec![])
    );
}

#[test]
fn test_random_points_exclusions_make_count_unsatisfiable() {
    let excluded = vec![Coordinate { x: 0, y: 0 }, Coordinate { x: 1, y: 1 }];
    assert_eq!(
        Err(SamplerError::InvalidArgument),
        gen_rand_points_in_area(0, 0, 2, 2, Some(3), None, excluded)
    );
}

#[test]
fn test_random_points_are_distinct() {
    let points = gen_rand_points_in_area(0, 0, 6, 6, Some(6), None, vec![]).unwrap();
    assert_eq!(6, points.len());
    for i in 0..points.len() {
        for j in 0..points.len() {
            if i != j {
                assert_ne!(points[i], points[j]);
            }
        }
    }
}

#[test]
fn test_random_points_fill_region_each_cell_once() {
    let points = gen_rand_points_in_area(0, 0, 3, 3, Some(9), None, vec![]).unwrap();
    assert_eq!(9, points.len());
    for y in 0..3 {
        for x in 0..3 {
            let hits = points
                .iter()
                .filter(|c| c.x == x && c.y == y)
                .count();
            assert_eq!(1, hits);
        }
    }
}

#[test]
fn test_random_points_respect_region_and_exclusions() {
    let excluded = vec![Coordinate { x: 1, y: 2 }, Coordinate { x: 2, y: 3 }];
    let points =
        gen_rand_points_in_area(1, 2, 3, 3, Some(4), None, excluded.clone()).unwrap();
    assert_eq!(4, points.len());
    for c in points.iter() {
        assert!(c.x >= 1 && c.x < 4);
        assert!(c.y >= 2 && c.y < 5);
        assert!(!excluded.contains(c));
    }
    for i in 0..points.len() {
        for j in 0..points.len() {
            if i != j {
                assert_ne!(points[i], points[j]);
            }
        }
    }
}

#[test]
fn test_random_points_capped_draw() {
    for _ in 0..50 {
        let points = gen_rand_points_in_area(0, 0, 4, 4, None, Some(5), vec![]).unwrap();
        assert!(points.len() < 5);
    }
}

#[test]
fn test_random_points_uncapped_draw() {
    for _ in 0..50 {
        let points = gen_rand_points_in_area(0, 0, 2, 2, None, None, vec![]).unwrap();
        assert!(points.len() < 4);
    }
}

#[test]
fn test_random_points_zero_count_gives_empty_result() {
    assert_eq!(
        0,
        gen_rand_points_in_area(0, 0, 2, 2, Some(0), None, vec![])
            .unwrap()
            .len()
    );
}

#[test]
fn test_random_points_empty_region() {
    assert_eq!(
        0,
        gen_rand_points_in_area(0, 0, 0, 0, Some(0), None, vec![])
            .unwrap()
            .len()
    );
}

#[test]
fn test_random_points_zero_count_with_too_many_exclusions_fails() {
    let excluded = vec![
        Coordinate { x: 0, y: 0 },
        Coordinate { x: 0, y: 1 },
        Coordinate { x: 1, y: 0 },
        Coordinate { x: 1, y: 1 },
        Coordinate { x: 5, y: 5 },
    ];
    assert_eq!(
        Err(SamplerError::InvalidArgument),
        gen_rand_points_in_area(0, 0, 2, 2, Some(0), None, excluded)
    );
}

//! Constrained random point sampling inside a rectangular region.
//!
//! The sampler enumerates every cell of the region once in row-major order,
//! drops the excluded cells, shuffles the remainder with a fair permutation,
//! and keeps a prefix of the requested length. The result therefore holds
//! pairwise distinct coordinates, all inside the region and none excluded.

use vstd::prelude::*;

use vstd::seq_lib::group_to_multiset_ensures;
use vstd::seq_lib::seq_to_set_is_finite;
use vstd::set_lib::lemma_len_subset;

use crate::geometry::Coordinate;
use crate::rng::rand_below;
use crate::rng::shuffle_coordinates;

verus! {

/// Sampling was asked for more points than the region and the exclusion set
/// allow.
#[derive(Debug, PartialEq, Eq, Structural, Clone, Copy)]
pub enum SamplerError {
    InvalidArgument,
}

/// True when `c` lies inside the rectangle
/// `[from_x, from_x + width) x [from_y, from_y + height)`.
pub open spec fn in_area(c: Coordinate, from_x: int, from_y: int, width: int, height: int) -> bool {
    from_x <= c.x < from_x + width && from_y <= c.y < from_y + height
}

/// True when a request for exactly `count` points cannot be met: the count
/// exceeds the region's area, or the cells left after honoring `excluded`
/// exclusions fall short of the count.
pub open spec fn count_unsatisfiable(width: int, height: int, count: int, excluded: int) -> bool {
    count > width * height || width * height - count < excluded
}

/// `a` comes strictly before `b` in row-major order.
spec fn row_major_lt(a: Coordinate, b: Coordinate) -> bool {
    a.y < b.y || (a.y == b.y && a.x < b.x)
}

/// Linear scan for a coordinate among `points`.
fn contains_coordinate(points: &Vec<Coordinate>, c: &Coordinate) -> (r: bool)
    ensures
        r == points@.contains(*c),
{
    let mut i: usize = 0;
    while i < points.len()
        invariant
            i <= points@.len(),
            forall|j: int| 0 <= j < i ==> points@[j] != *c,
        decreases points@.len() - i,
    {
        if points[i].x == c.x && points[i].y == c.y {
            assert(points@[i as int] == *c);
            return true;
        }
        i += 1;
    }
    false
}

/// Generate a sequence of pairwise distinct random coordinates inside the
/// rectangle `[from_x, from_x + width) x [from_y, from_y + height)`, skipping
/// every coordinate listed in `exclusive_points`.
///
/// With `how_many_generate == Some(count)` the result holds exactly `count`
/// coordinates, or the call fails with `InvalidArgument` when `count` exceeds
/// the region's area or the exclusions leave fewer than `count` free cells.
/// Otherwise the number of points is drawn uniformly below
/// `max_num_of_rand_gen_points` when that is given, and below the region's
/// area when it is not; such a draw can never fail.
pub fn gen_rand_points_in_area(
    from_x: usize,
    from_y: usize,
    width: usize,
    height: usize,
    how_many_generate: Option<usize>,
    max_num_of_rand_gen_points: Option<usize>,
    exclusive_points: Vec<Coordinate>,
) -> (result: Result<Vec<Coordinate>, SamplerError>)
    requires
        from_x + width <= usize::MAX,
        from_y + height <= usize::MAX,
        width * height <= usize::MAX,
        how_many_generate is None ==> (max_num_of_rand_gen_points matches Some(m) ==> m > 0),
        how_many_generate is None && max_num_of_rand_gen_points is None ==> width * height > 0,
    ensures
        match result {
            Ok(points) => {
                &&& points@.no_duplicates()
                &&& forall|i: int|
                    0 <= i < points@.len()
                        ==> in_area(
                            #[trigger] points@[i],
                            from_x as int,
                            from_y as int,
                            width as int,
                            height as int,
                        ) && !exclusive_points@.contains(points@[i])
                &&& points@.len() <= width * height
                &&& how_many_generate matches Some(n) ==> points@.len() == n
                &&& how_many_generate is None ==> (max_num_of_rand_gen_points matches Some(m)
                    ==> points@.len() < m)
                &&& how_many_generate is None && max_num_of_rand_gen_points is None
                    ==> points@.len() < width * height
            },
            Err(e) => e == SamplerError::InvalidArgument,
        },
        result is Err <==> (how_many_generate matches Some(n) && count_unsatisfiable(
            width as int,
            height as int,
            n as int,
            exclusive_points@.len() as int,
        )),
{
    let area = width * height;
    let points_num: usize = match how_many_generate {
        Some(n) => {
            if n > area {
                return Err(SamplerError::InvalidArgument);
            }
            if area - n < exclusive_points.len() {
                return Err(SamplerError::InvalidArgument);
            }
            n
        },
        None => match max_num_of_rand_gen_points {
            Some(max_num) => rand_below(max_num),
            None => rand_below(area),
        },
    };

    let end_x = from_x + width;
    let end_y = from_y + height;
    let mut points: Vec<Coordinate> = Vec::new();
    let ghost mut skipped: Set<Coordinate> = Set::empty();

    let mut y = from_y;
    while y < end_y
        invariant
            from_y <= y <= end_y,
            end_x == from_x + width,
            end_y == from_y + height,
            area == width * height,
            forall|i: int|
                0 <= i < points@.len()
                    ==> in_area(
                        #[trigger] points@[i],
                        from_x as int,
                        from_y as int,
                        width as int,
                        height as int,
                    ),
            forall|i: int| 0 <= i < points@.len() ==> !exclusive_points@.contains(points@[i]),
            forall|i: int| 0 <= i < points@.len() ==> (#[trigger] points@[i]).y < y,
            forall|i: int, j: int|
                0 <= i < j < points@.len() ==> row_major_lt(points@[i], points@[j]),
            points@.no_duplicates(),
            skipped.finite(),
            skipped.subset_of(exclusive_points@.to_set()),
            forall|c: Coordinate| #[trigger] skipped.contains(c) ==> c.y < y,
            points@.len() + skipped.len() == (y - from_y) * width,
        decreases end_y - y,
    {
        let mut x = from_x;
        while x < end_x
            invariant
                from_y <= y < end_y,
                from_x <= x <= end_x,
                end_x == from_x + width,
                end_y == from_y + height,
                area == width * height,
                forall|i: int|
                    0 <= i < points@.len()
                        ==> in_area(
                            #[trigger] points@[i],
                            from_x as int,
                            from_y as int,
                            width as int,
                            height as int,
                        ),
                forall|i: int| 0 <= i < points@.len() ==> !exclusive_points@.contains(points@[i]),
                forall|i: int|
                    0 <= i < points@.len()
                        ==> row_major_lt(#[trigger] points@[i], Coordinate { x, y }),
                forall|i: int, j: int|
                    0 <= i < j < points@.len() ==> row_major_lt(points@[i], points@[j]),
                points@.no_duplicates(),
                skipped.finite(),
                skipped.subset_of(exclusive_points@.to_set()),
                forall|c: Coordinate| #[trigger] skipped.contains(c)
                    ==> row_major_lt(c, Coordinate { x, y }),
                points@.len() + skipped.len() == (y - from_y) * width + (x - from_x),
            decreases end_x - x,
        {
            let c = Coordinate { x, y };
            if contains_coordinate(&exclusive_points, &c) {
                proof {
                    assert(!skipped.contains(c));
                    assert(exclusive_points@.to_set().contains(c));
                    skipped = skipped.insert(c);
                }
            } else {
                points.push(c);
            }
            x += 1;
        }
        proof {
            assert((y + 1 - from_y) * width == (y - from_y) * width + width) by (nonlinear_arith);
        }
        y += 1;
    }

    proof {
        assert((end_y - from_y) * width == height * width);
        assert(height * width == width * height) by (nonlinear_arith);
        assert(points@.len() + skipped.len() == area);
        broadcast use seq_to_set_is_finite;

        exclusive_points@.lemma_cardinality_of_set();
        lemma_len_subset(skipped, exclusive_points@.to_set());
        assert(skipped.len() <= exclusive_points@.len());
        assert(points@.len() >= area - exclusive_points@.len());
    }

    let ghost pre_shuffle = points@;
    shuffle_coordinates(&mut points);
    proof {
        broadcast use group_to_multiset_ensures;

        assert(points@.to_multiset().len() == pre_shuffle.to_multiset().len());
        assert(points@.len() == pre_shuffle.len());
        pre_shuffle.lemma_multiset_has_no_duplicates();
        assert forall|a: Coordinate| points@.to_multiset().contains(a) implies points@.to_multiset().count(a) == 1 by {
            assert(pre_shuffle.to_multiset().contains(a));
        }
        points@.lemma_multiset_has_no_duplicates_conv();
        assert forall|i: int|
            0 <= i < points@.len() implies in_area(
                #[trigger] points@[i],
                from_x as int,
                from_y as int,
                width as int,
                height as int,
            ) && !exclusive_points@.contains(points@[i]) by {
            assert(points@.contains(points@[i]));
            assert(points@.to_multiset().count(points@[i]) > 0);
            assert(pre_shuffle.contains(points@[i]));
            let j = choose|j: int| 0 <= j < pre_shuffle.len() && pre_shuffle[j] == points@[i];
            assert(in_area(pre_shuffle[j], from_x as int, from_y as int, width as int, height as int));
        }
    }

    let ghost pre_truncate = points@;
    points.truncate(points_num);
    proof {
        if points_num <= pre_truncate.len() {
            assert(points@ == pre_truncate.subrange(0, points_num as int));
            assert forall|i: int, j: int| 0 <= i < j < points@.len() implies points@[i] != points@[j] by {
                assert(pre_truncate[i] == points@[i]);
                assert(pre_truncate[j] == points@[j]);
            }
        } else {
            assert(points@ == pre_truncate);
        }
    }

    Ok(points)
}

} // verus!


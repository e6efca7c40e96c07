//! Proximity query: the enemies within a radius of a point, found in a
//! horde sorted by vertical coordinate.

use crate::enemies::{all_valid, sorted_by_y, Enemy};
use crate::geometry::{within, within_distance, Point};
use vstd::prelude::*;

verus! {

/// A point whose vertical distance to `b` exceeds `r` is farther than `r`.
pub proof fn lemma_far_in_y(a: Point, b: Point, r: int)
    requires
        r >= 0,
        a.y - b.y > r || b.y - a.y > r,
    ensures
        !within(a, b, r),
{
    let dx = a.x - b.x;
    let dy = a.y - b.y;
    assert(dy * dy > r * r) by (nonlinear_arith)
        requires r >= 0, dy > r || -dy > r;
    assert(dx * dx >= 0) by (nonlinear_arith);
}

/// Index of the first enemy at or after `from` whose vertical coordinate
/// exceeds `bound`.
fn first_above(s: &Vec<Enemy>, from: usize, bound: i128) -> (r: usize)
    requires
        from <= s@.len(),
        sorted_by_y(s@),
    ensures
        from <= r <= s@.len(),
        forall|i: int| from <= i < r ==> s@[i].loc.y <= bound,
        forall|i: int| r <= i < s@.len() ==> s@[i].loc.y > bound,
{
    let mut lo: usize = from;
    let mut hi: usize = s.len();
    while lo < hi
        invariant
            from <= lo <= hi <= s@.len(),
            sorted_by_y(s@),
            forall|i: int| from <= i < lo ==> s@[i].loc.y <= bound,
            forall|i: int| hi <= i < s@.len() ==> s@[i].loc.y > bound,
        decreases hi - lo,
    {
        let mid: usize = lo + (hi - lo) / 2;
        if (s[mid].loc.y as i128) <= bound {
            lo = mid + 1;
        } else {
            hi = mid;
        }
    }
    lo
}

/// The index range `[lower, upper)` of the enemies whose vertical
/// coordinate lies within `dist` of the center's. Every enemy within `dist`
/// of `center` lies inside it.
pub fn proximity_band(enemies: &Vec<Enemy>, center: Point, dist: u64) -> (r: (usize, usize))
    requires
        sorted_by_y(enemies@),
        center.valid(),
    ensures
        r.0 <= r.1 <= enemies@.len(),
        forall|i: int|
            0 <= i < enemies@.len() && !(r.0 <= i < r.1) ==> !within(
                #[trigger] enemies@[i].loc,
                center,
                dist as int,
            ),
        forall|i: int|
            r.0 <= i < r.1 ==> center.y - dist <= #[trigger] enemies@[i].loc.y <= center.y + dist,
{
    let lower = first_above(enemies, 0, center.y as i128 - dist as i128 - 1);
    let upper = first_above(enemies, lower, center.y as i128 + dist as i128);
    proof {
        assert forall|i: int|
            0 <= i < enemies@.len() && !(lower <= i < upper) implies !within(
                #[trigger] enemies@[i].loc,
                center,
                dist as int,
            ) by {
            lemma_far_in_y(enemies@[i].loc, center, dist as int);
        }
    }
    (lower, upper)
}

/// Indices, ascending, of the enemies at distance at most `dist` from
/// `center`. An empty result is an ordinary outcome.
pub fn find_in_distance(enemies: &Vec<Enemy>, center: Point, dist: u64) -> (r: Vec<usize>)
    requires
        sorted_by_y(enemies@),
        all_valid(enemies@),
        center.valid(),
    ensures
        forall|k: int|
            0 <= k < r@.len() ==> r@[k] < enemies@.len() && within(
                enemies@[r@[k] as int].loc,
                center,
                dist as int,
            ),
        forall|i: int|
            0 <= i < enemies@.len() && within(#[trigger] enemies@[i].loc, center, dist as int)
                ==> r@.contains(i as usize),
        forall|k: int, l: int| 0 <= k < l < r@.len() ==> r@[k] < r@[l],
{
    let (lower, upper) = proximity_band(enemies, center, dist);
    let mut found: Vec<usize> = Vec::new();
    let mut i: usize = lower;
    while i < upper
        invariant
            lower <= i <= upper <= enemies@.len(),
            all_valid(enemies@),
            center.valid(),
            forall|k: int|
                0 <= k < found@.len() ==> lower <= found@[k] < i && within(
                    enemies@[found@[k] as int].loc,
                    center,
                    dist as int,
                ),
            forall|j: int|
                lower <= j < i && within(#[trigger] enemies@[j].loc, center, dist as int)
                    ==> found@.contains(j as usize),
            forall|k: int, l: int| 0 <= k < l < found@.len() ==> found@[k] < found@[l],
        decreases upper - i,
    {
        assert(enemies@[i as int].loc.valid());
        if within_distance(enemies[i].loc, center, dist) {
            let ghost before = found@;
            found.push(i);
            proof {
                assert forall|j: int|
                    lower <= j < i + 1 && within(
                        #[trigger] enemies@[j].loc,
                        center,
                        dist as int,
                    ) implies found@.contains(j as usize) by {
                    if j < i {
                        let k = choose|k: int| 0 <= k < before.len() && before[k] == j as usize;
                        assert(found@[k] == j as usize);
                    } else {
                        assert(found@[before.len() as int] == i);
                    }
                }
            }
        }
        i = i + 1;
    }
    found
}

} // verus!

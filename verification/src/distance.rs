//! The distance primitive: squared Euclidean distance on the lattice.

use vstd::prelude::*;
use crate::grid::{rows_of, Grid};

verus! {

/// The largest value a single squared coordinate difference can take:
/// `(2^32 - 1)^2`.
pub open spec fn max_term() -> int {
    0xFFFF_FFFE_0000_0001
}

/// Squared Euclidean distance between two points of equal dimension: the sum,
/// over every coordinate, of the squared difference.
pub open spec fn sq_dist(a: Seq<i32>, b: Seq<i32>) -> int
    recommends
        a.len() == b.len(),
    decreases a.len(),
{
    if a.len() == 0 || b.len() == 0 {
        0
    } else {
        sq_dist(a.drop_last(), b.drop_last()) + (a.last() - b.last()) * (a.last() - b.last())
    }
}

/// A squared distance is never negative and grows by at most `max_term()`
/// per coordinate.
pub proof fn lemma_sq_dist_bounds(a: Seq<i32>, b: Seq<i32>)
    requires
        a.len() == b.len(),
    ensures
        0 <= sq_dist(a, b) <= a.len() * max_term(),
    decreases a.len(),
{
    if a.len() > 0 {
        lemma_sq_dist_bounds(a.drop_last(), b.drop_last());
        let x = a.last() - b.last();
        assert(0 <= x * x <= max_term()) by (nonlinear_arith)
            requires
                -0xFFFF_FFFF <= x <= 0xFFFF_FFFF,
        ;
    }
}

/// The distance does not depend on the order of its two arguments.
pub proof fn lemma_sq_dist_symmetric(a: Seq<i32>, b: Seq<i32>)
    requires
        a.len() == b.len(),
    ensures
        sq_dist(a, b) == sq_dist(b, a),
    decreases a.len(),
{
    if a.len() > 0 {
        lemma_sq_dist_symmetric(a.drop_last(), b.drop_last());
        let x = a.last() - b.last();
        let y = b.last() - a.last();
        assert(x * x == y * y) by (nonlinear_arith)
            requires
                y == -x,
        ;
    }
}

/// Every point is at distance zero from itself.
pub proof fn lemma_sq_dist_self(a: Seq<i32>)
    ensures
        sq_dist(a, a) == 0,
    decreases a.len(),
{
    if a.len() > 0 {
        lemma_sq_dist_self(a.drop_last());
    }
}

/// Two points of equal dimension are at distance zero exactly when they are
/// the same point.
pub proof fn lemma_sq_dist_zero_iff_equal(a: Seq<i32>, b: Seq<i32>)
    requires
        a.len() == b.len(),
    ensures
        sq_dist(a, b) == 0 <==> a == b,
    decreases a.len(),
{
    if a.len() == 0 {
        assert(a =~= b);
    } else {
        lemma_sq_dist_zero_iff_equal(a.drop_last(), b.drop_last());
        lemma_sq_dist_bounds(a.drop_last(), b.drop_last());
        let x = a.last() - b.last();
        assert(x * x >= 0 && (x * x == 0 <==> x == 0)) by (nonlinear_arith);
        if sq_dist(a, b) == 0 {
            assert(a =~= a.drop_last().push(a.last()));
            assert(b =~= b.drop_last().push(b.last()));
        }
    }
}

/// Squared Euclidean distance between `a` and `b`.
///
/// Both points must have the same number of coordinates. The sum cannot
/// overflow: a term is below `2^64` and there are fewer than `2^64` terms.
pub fn dist_sq(a: &Vec<i32>, b: &Vec<i32>) -> (d: u128)
    requires
        a.len() == b.len(),
    ensures
        d == sq_dist(a@, b@),
{
    let n = a.len();
    let mut acc: u128 = 0;
    let mut i: usize = 0;
    while i < n
        invariant
            i <= n,
            n == a.len(),
            n == b.len(),
            acc == sq_dist(a@.take(i as int), b@.take(i as int)),
            acc <= i * max_term(),
        decreases n - i,
    {
        let x: i128 = a[i] as i128 - b[i] as i128;
        assert(0 <= x * x <= max_term()) by (nonlinear_arith)
            requires
                -0xFFFF_FFFF <= x <= 0xFFFF_FFFF,
        ;
        let term: u128 = (x * x) as u128;
        proof {
            let an = a@.take(i + 1);
            let bn = b@.take(i + 1);
            assert(an.drop_last() =~= a@.take(i as int));
            assert(bn.drop_last() =~= b@.take(i as int));
        }
        acc = acc + term;
        i = i + 1;
    }
    assert(a@.take(n as int) =~= a@);
    assert(b@.take(n as int) =~= b@);
    acc
}

/// `table` holds, for every point and every centre, their squared distance:
/// one row per point, one entry per centre.
pub open spec fn is_distance_table(
    points: Seq<Seq<i32>>,
    centres: Seq<Seq<i32>>,
    table: Seq<Vec<u128>>,
) -> bool {
    &&& table.len() == points.len()
    &&& forall|i: int| 0 <= i < table.len() ==> (#[trigger] table[i]).len() == centres.len()
    &&& forall|i: int, j: int|
        0 <= i < table.len() && 0 <= j < centres.len() ==> #[trigger] table[i][j] == sq_dist(
            points[i],
            centres[j],
        )
}

/// The squared distance of every point of `data` to every centre of
/// `clusters`, or `None` where points and centres differ in width.
pub fn distance_table(data: &Grid, clusters: &Grid) -> (r: Option<Vec<Vec<u128>>>)
    ensures
        r is Some <==> data.width() == clusters.width(),
        r matches Some(table) ==> is_distance_table(data.rows(), clusters.rows(), table@),
{
    let (m, dw) = data.dims();
    let (k, cw) = clusters.dims();
    if dw != cw {
        return None;
    }
    let points = data.to_rows();
    let centres = clusters.to_rows();
    let mut table: Vec<Vec<u128>> = Vec::new();
    let mut i: usize = 0;
    while i < m
        invariant
            i <= m,
            m == points.len(),
            k == centres.len(),
            table.len() == i,
            data.wf(),
            clusters.wf(),
            data.width() == clusters.width(),
            rows_of(points@) == data.rows(),
            rows_of(centres@) == clusters.rows(),
            forall|r: int| 0 <= r < i ==> (#[trigger] table[r]).len() == k,
            forall|r: int, c: int|
                0 <= r < i && 0 <= c < k ==> #[trigger] table[r][c] == sq_dist(
                    data.rows()[r],
                    clusters.rows()[c],
                ),
        decreases m - i,
    {
        let p = &points[i];
        proof {
            assert(data.rows()[i as int].len() == data.width());
        }
        let mut row: Vec<u128> = Vec::new();
        let mut j: usize = 0;
        while j < k
            invariant
                j <= k,
                k == centres.len(),
                row.len() == j,
                clusters.wf(),
                p.len() == clusters.width(),
                rows_of(centres@) == clusters.rows(),
                forall|c: int| 0 <= c < j ==> #[trigger] row[c] == sq_dist(p@, clusters.rows()[c]),
            decreases k - j,
        {
            proof {
                assert(clusters.rows()[j as int].len() == clusters.width());
            }
            row.push(dist_sq(p, &centres[j]));
            j = j + 1;
        }
        table.push(row);
        i = i + 1;
    }
    Some(table)
}

} // verus!

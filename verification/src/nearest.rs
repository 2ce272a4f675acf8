//! The nearest-assignment engine: one hard label per point, the index of the
//! closest centre, ties going to the lowest index.
//!
//! The engine works on a table of distances, one row per point and one entry
//! per centre. For lattice data the table is exact and the labels are stated
//! over the points themselves. A caller with real-valued data hands over a
//! table of ranks: integers ordered like its distances.

use vstd::prelude::*;
use crate::distance::{distance_table, is_distance_table, sq_dist};
use crate::grid::{append_column, duplicate, fits, shape_fits, Grid};

verus! {

/// `j` is the position of the smallest entry of `dists`, and the first such
/// position where the smallest value occurs more than once.
pub open spec fn is_nearest(dists: Seq<u128>, j: int) -> bool {
    &&& 0 <= j < dists.len()
    &&& forall|l: int| 0 <= l < dists.len() ==> dists[j] <= #[trigger] dists[l]
    &&& forall|l: int| 0 <= l < j ==> dists[j] < #[trigger] dists[l]
}

/// `labels` assigns to every row of `table` its nearest position.
pub open spec fn is_assignment(table: Seq<Vec<u128>>, labels: Seq<usize>) -> bool {
    &&& labels.len() == table.len()
    &&& forall|i: int| 0 <= i < table.len() ==> is_nearest(table[i]@, #[trigger] labels[i] as int)
}

/// `j` is the label of point `p` among `centres`: the centre at `j` is at
/// least as close as any other, and strictly closer than every centre before
/// it.
pub open spec fn is_label(p: Seq<i32>, centres: Seq<Seq<i32>>, j: int) -> bool {
    &&& 0 <= j < centres.len()
    &&& forall|l: int|
        0 <= l < centres.len() ==> sq_dist(p, centres[j]) <= sq_dist(p, #[trigger] centres[l])
    &&& forall|l: int| 0 <= l < j ==> sq_dist(p, centres[j]) < sq_dist(p, #[trigger] centres[l])
}

/// `labels` holds the label of every point among `centres`.
pub open spec fn is_labelling(points: Seq<Seq<i32>>, centres: Seq<Seq<i32>>, labels: Seq<usize>) -> bool {
    &&& labels.len() == points.len()
    &&& forall|i: int| 0 <= i < points.len() ==> is_label(points[i], centres, #[trigger] labels[i] as int)
}

/// A row of distances has at most one nearest position.
pub proof fn lemma_nearest_unique(dists: Seq<u128>, a: int, b: int)
    requires
        is_nearest(dists, a),
        is_nearest(dists, b),
    ensures
        a == b,
{
    if a < b {
        assert(dists[a] <= dists[b]);
    } else if b < a {
        assert(dists[b] <= dists[a]);
    }
}

/// A point has at most one label among given centres.
pub proof fn lemma_label_unique(p: Seq<i32>, centres: Seq<Seq<i32>>, a: int, b: int)
    requires
        is_label(p, centres, a),
        is_label(p, centres, b),
    ensures
        a == b,
{
    if a < b {
        assert(sq_dist(p, centres[a]) <= sq_dist(p, centres[b]));
    } else if b < a {
        assert(sq_dist(p, centres[b]) <= sq_dist(p, centres[a]));
    }
}

/// Nearest assignment is a function of its input: two runs on the same
/// points and the same centres give the same labels.
pub proof fn lemma_labelling_unique(
    points: Seq<Seq<i32>>,
    centres: Seq<Seq<i32>>,
    a: Seq<usize>,
    b: Seq<usize>,
)
    requires
        is_labelling(points, centres, a),
        is_labelling(points, centres, b),
    ensures
        a == b,
{
    assert forall|i: int| 0 <= i < a.len() implies a[i] == b[i] by {
        lemma_label_unique(points[i], centres, a[i] as int, b[i] as int);
    }
}

/// On a tie the nearest position is the lowest: no position before it
/// holds a distance as small.
pub proof fn lemma_nearest_breaks_ties_low(dists: Seq<u128>, j: int, l: int)
    requires
        is_nearest(dists, j),
        0 <= l < dists.len(),
        dists[l] == dists[j],
    ensures
        j <= l,
{
}

/// An assignment on the exact table of squared distances is the labelling
/// of the points.
pub proof fn lemma_assignment_is_labelling(
    points: Seq<Seq<i32>>,
    centres: Seq<Seq<i32>>,
    table: Seq<Vec<u128>>,
    labels: Seq<usize>,
)
    requires
        is_distance_table(points, centres, table),
        is_assignment(table, labels),
    ensures
        is_labelling(points, centres, labels),
{
    assert forall|i: int| 0 <= i < points.len() implies is_label(
        points[i],
        centres,
        #[trigger] labels[i] as int,
    ) by {
        let p = points[i];
        let j = labels[i] as int;
        assert forall|c: int| 0 <= c < centres.len() implies sq_dist(p, centres[j]) <= sq_dist(
            p,
            #[trigger] centres[c],
        ) by {
            assert(table[i][j] <= table[i][c]);
        }
        assert forall|c: int| 0 <= c < j implies sq_dist(p, centres[j]) < sq_dist(
            p,
            #[trigger] centres[c],
        ) by {
            assert(table[i][j] < table[i][c]);
        }
    }
}

/// Among centres at exactly the same distance from a point, the label is the
/// one with the lowest index: no centre before the label is as close.
pub proof fn lemma_label_breaks_ties_low(p: Seq<i32>, centres: Seq<Seq<i32>>, j: int, l: int)
    requires
        is_label(p, centres, j),
        0 <= l < centres.len(),
        sq_dist(p, centres[l]) == sq_dist(p, centres[j]),
    ensures
        j <= l,
{
}

/// The position of the smallest distance, the first one on a tie; `None` for
/// an empty row.
///
/// The scan keeps the best position seen so far and moves only to a strictly
/// smaller distance.
pub fn nearest_index(dists: &Vec<u128>) -> (r: Option<usize>)
    ensures
        r is None <==> dists.len() == 0,
        r matches Some(j) ==> is_nearest(dists@, j as int),
{
    let n = dists.len();
    if n == 0 {
        return None;
    }
    let mut best: usize = 0;
    let mut j: usize = 1;
    while j < n
        invariant
            n == dists.len(),
            1 <= j <= n,
            best < j,
            forall|l: int| 0 <= l < j ==> dists[best as int] <= #[trigger] dists[l],
            forall|l: int| 0 <= l < best ==> dists[best as int] < #[trigger] dists[l],
        decreases n - j,
    {
        if dists[j] < dists[best] {
            best = j;
        }
        j = j + 1;
    }
    Some(best)
}

/// The nearest position of every row of a table of distances, or `None`
/// where some row is empty.
pub fn assign(table: &Vec<Vec<u128>>) -> (r: Option<Vec<usize>>)
    ensures
        r is Some <==> forall|i: int| 0 <= i < table.len() ==> (#[trigger] table[i]).len() > 0,
        r matches Some(labels) ==> is_assignment(table@, labels@),
{
    let m = table.len();
    let mut labels: Vec<usize> = Vec::new();
    let mut i: usize = 0;
    while i < m
        invariant
            i <= m,
            m == table.len(),
            labels.len() == i,
            forall|r: int| 0 <= r < i ==> (#[trigger] table[r]).len() > 0,
            forall|r: int| 0 <= r < i ==> is_nearest(table[r]@, #[trigger] labels[r] as int),
        decreases m - i,
    {
        match nearest_index(&table[i]) {
            Some(j) => {
                labels.push(j);
            },
            None => {
                return None;
            },
        }
        i = i + 1;
    }
    Some(labels)
}

/// Why a nearest assignment was refused.
#[derive(Clone, Copy, Debug, PartialEq, Eq)]
pub enum NearestError {
    /// There is no centre to assign to.
    NoClusters,
    /// Points and centres do not have the same number of coordinates.
    DimensionMismatch,
    /// A label would not fit in an `i32` cell.
    TooManyClusters,
    /// The data with one more column is larger than an array can be.
    TooLarge,
}

/// The error, if any, that stops labelling `k` centres of width `cw` against
/// points of width `dw`. An empty centre matrix is reported before a width
/// mismatch.
pub open spec fn labels_error(dw: int, k: int, cw: int) -> Option<NearestError> {
    if k == 0 {
        Some(NearestError::NoClusters)
    } else if dw != cw {
        Some(NearestError::DimensionMismatch)
    } else {
        None
    }
}

/// The error, if any, that stops `compute_nearest` on `m` points of width
/// `dw` and `k` centres of width `cw`: first those of `labels_error`, then a
/// label that does not fit an `i32`, then a result too large to hold.
pub open spec fn nearest_error(m: int, dw: int, k: int, cw: int) -> Option<NearestError> {
    if labels_error(dw, k, cw) is Some {
        labels_error(dw, k, cw)
    } else if k > 0x8000_0000 {
        Some(NearestError::TooManyClusters)
    } else if !shape_fits(m, dw + 1) {
        Some(NearestError::TooLarge)
    } else {
        None
    }
}

/// The hard label of every point: for point `i`, the index of the centre at
/// the smallest squared distance, the lowest such index on a tie.
///
/// Fails with `NoClusters` when `clusters` has no row, and otherwise with
/// `DimensionMismatch` when the two matrices differ in width.
pub fn nearest_labels(data: &Grid, clusters: &Grid) -> (r: Result<Vec<usize>, NearestError>)
    ensures
        match labels_error(data.width() as int, clusters.height() as int, clusters.width() as int) {
            Some(e) => r matches Err(x) && x == e,
            None => r matches Ok(labels) && is_labelling(data.rows(), clusters.rows(), labels@),
        },
{
    let (m, _dw) = data.dims();
    let (k, _cw) = clusters.dims();
    if k == 0 {
        return Err(NearestError::NoClusters);
    }
    let table = match distance_table(data, clusters) {
        Some(table) => table,
        None => {
            return Err(NearestError::DimensionMismatch);
        },
    };
    let labels = assign(&table).unwrap();
    proof {
        lemma_assignment_is_labelling(data.rows(), clusters.rows(), table@, labels@);
    }
    Ok(labels)
}

/// The data with one more column that holds each point's hard label.
///
/// Row `i` of the result is row `i` of `data` followed by the label of point
/// `i`: the index of the nearest centre, the lowest index on a tie. The
/// errors, in the order in which they are reported, are those of
/// `nearest_error`.
pub fn compute_nearest(data: &Grid, clusters: &Grid) -> (r: Result<Grid, NearestError>)
    ensures
        match nearest_error(
            data.height() as int,
            data.width() as int,
            clusters.height() as int,
            clusters.width() as int,
        ) {
            Some(e) => r matches Err(x) && x == e,
            None => r matches Ok(out) && out.wf() && out.width() == data.width() + 1
                && out.height() == data.height() && forall|i: int|
                0 <= i < out.height() ==> {
                    let row = #[trigger] out.rows()[i];
                    &&& row.take(data.width() as int) == data.rows()[i]
                    &&& is_label(data.rows()[i], clusters.rows(), row[data.width() as int] as int)
                },
        },
{
    let (m, dw) = data.dims();
    let (k, _cw) = clusters.dims();
    let labels = match nearest_labels(data, clusters) {
        Err(e) => {
            return Err(e);
        },
        Ok(labels) => labels,
    };
    if k > 0x8000_0000 {
        return Err(NearestError::TooManyClusters);
    }
    if dw == usize::MAX {
        assert(!shape_fits(m as int, dw + 1)) by (nonlinear_arith)
            requires
                dw + 1 > isize::MAX,
                m >= 0,
        ;
        return Err(NearestError::TooLarge);
    }
    if !fits(m, dw + 1) {
        return Err(NearestError::TooLarge);
    }
    let mut column: Vec<i32> = Vec::new();
    let mut i: usize = 0;
    while i < m
        invariant
            i <= m,
            m == labels.len(),
            column.len() == i,
            k <= 0x8000_0000,
            forall|c: int| 0 <= c < m ==> 0 <= #[trigger] labels[c] < k,
            forall|c: int| 0 <= c < i ==> #[trigger] column[c] == labels[c],
        decreases m - i,
    {
        column.push(labels[i] as i32);
        i = i + 1;
    }
    let mut out = duplicate(data);
    let ok = append_column(&mut out, &column);
    assert(ok);
    Ok(out)
}

} // verus!

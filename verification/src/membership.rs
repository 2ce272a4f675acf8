//! The exact part of the membership engine: what to do with one point,
//! decided from its squared distances to the centres.
//!
//! A raw weight is a negative power of a distance, so a point that sits on a
//! centre has no finite weight. Such a point belongs fully to that centre,
//! the first one if several coincide. With a single cluster every point
//! belongs fully to it. Only the remaining rows are weighted.

use vstd::prelude::*;
use vstd::arithmetic::power2::pow2;
use crate::distance::{distance_table, is_distance_table, lemma_sq_dist_zero_iff_equal};
use crate::grid::Grid;
use crate::ieee::{lemma_magnitude_of_constants, magnitude, ONE};
use crate::nearest::{is_nearest, labels_error, NearestError};

verus! {

/// How one row of the membership matrix is to be filled.
#[derive(Clone, Copy, Debug, PartialEq, Eq)]
pub enum RowPlan {
    /// Membership one in the cluster of this index, zero in every other.
    Full(usize),
    /// Raw weights from the distances, divided by their sum.
    Weighted,
}

/// `j` is the first position of `dists` that holds a zero.
pub open spec fn is_first_zero(dists: Seq<u128>, j: int) -> bool {
    &&& 0 <= j < dists.len()
    &&& dists[j] == 0
    &&& forall|l: int| 0 <= l < j ==> #[trigger] dists[l] != 0
}

/// The plan for a row of distances to `dists.len() >= 1` centres: full
/// membership in the only cluster, or in the first cluster at distance zero,
/// and weighting where all distances are positive.
pub open spec fn is_plan(dists: Seq<u128>, plan: RowPlan) -> bool {
    match plan {
        RowPlan::Full(j) => if dists.len() == 1 {
            j == 0
        } else {
            is_first_zero(dists, j as int)
        },
        RowPlan::Weighted => dists.len() > 1 && forall|l: int|
            0 <= l < dists.len() ==> #[trigger] dists[l] != 0,
    }
}

/// `j` is the index of the first centre that equals the point `p`.
pub open spec fn is_first_match(p: Seq<i32>, centres: Seq<Seq<i32>>, j: int) -> bool {
    &&& 0 <= j < centres.len()
    &&& centres[j] == p
    &&& forall|l: int| 0 <= l < j ==> #[trigger] centres[l] != p
}

/// The plan for a lattice point among `centres.len() >= 1` centres, stated
/// over the points themselves: full membership in the only cluster, or in
/// the first centre the point sits on, and weighting where it sits on none.
pub open spec fn is_point_plan(p: Seq<i32>, centres: Seq<Seq<i32>>, plan: RowPlan) -> bool {
    match plan {
        RowPlan::Full(j) => if centres.len() == 1 {
            j == 0
        } else {
            is_first_match(p, centres, j as int)
        },
        RowPlan::Weighted => centres.len() > 1 && forall|l: int|
            0 <= l < centres.len() ==> #[trigger] centres[l] != p,
    }
}

/// A row has at most one plan.
pub proof fn lemma_plan_unique(dists: Seq<u128>, a: RowPlan, b: RowPlan)
    requires
        is_plan(dists, a),
        is_plan(dists, b),
    ensures
        a == b,
{
}

/// With a single cluster every row is planned as full membership in it,
/// and its only entry is the number one.
pub proof fn lemma_single_cluster_is_full(dists: Seq<u128>, plan: RowPlan)
    requires
        dists.len() == 1,
        is_plan(dists, plan),
    ensures
        plan == RowPlan::Full(0),
        full_row_of(0, 1) == seq![ONE],
{
    assert(full_row_of(0, 1) =~= seq![ONE]);
}

/// The cluster that receives full membership on a coincidence is the one
/// that nearest assignment picks for the same distances.
pub proof fn lemma_full_is_nearest(dists: Seq<u128>, j: int)
    requires
        is_first_zero(dists, j),
    ensures
        is_nearest(dists, j),
{
}

/// `plans` holds the plan of every row of `table`.
pub open spec fn is_table_plan(table: Seq<Vec<u128>>, plans: Seq<RowPlan>) -> bool {
    &&& plans.len() == table.len()
    &&& forall|i: int| 0 <= i < table.len() ==> is_plan(table[i]@, #[trigger] plans[i])
}

/// `plans` holds the plan of every point among `centres`.
pub open spec fn is_membership_plan(
    points: Seq<Seq<i32>>,
    centres: Seq<Seq<i32>>,
    plans: Seq<RowPlan>,
) -> bool {
    &&& plans.len() == points.len()
    &&& forall|i: int| 0 <= i < points.len() ==> is_point_plan(points[i], centres, #[trigger] plans[i])
}

/// The plans made from the exact table of squared distances are the plans
/// of the points: a distance is zero exactly where point and centre are the
/// same.
pub proof fn lemma_table_plan_is_point_plan(
    points: Seq<Seq<i32>>,
    centres: Seq<Seq<i32>>,
    table: Seq<Vec<u128>>,
    plans: Seq<RowPlan>,
)
    requires
        is_distance_table(points, centres, table),
        is_table_plan(table, plans),
        forall|i: int| 0 <= i < points.len() ==> forall|c: int|
            0 <= c < centres.len() ==> (#[trigger] points[i]).len() == (#[trigger] centres[c]).len(),
    ensures
        is_membership_plan(points, centres, plans),
{
    assert forall|i: int| 0 <= i < points.len() implies is_point_plan(
        points[i],
        centres,
        #[trigger] plans[i],
    ) by {
        let p = points[i];
        assert forall|c: int| 0 <= c < centres.len() implies (table[i][c] == 0 <==> #[trigger] centres[c]
            == p) by {
            lemma_sq_dist_zero_iff_equal(p, centres[c]);
        }
    }
}

/// The plan for one row of distances; `None` when there is no cluster.
pub fn plan_row(dists: &Vec<u128>) -> (r: Option<RowPlan>)
    ensures
        r is None <==> dists.len() == 0,
        r matches Some(plan) ==> is_plan(dists@, plan),
{
    let k = dists.len();
    if k == 0 {
        return None;
    }
    if k == 1 {
        return Some(RowPlan::Full(0));
    }
    let mut j: usize = 0;
    while j < k
        invariant
            j <= k,
            k == dists.len(),
            forall|l: int| 0 <= l < j ==> #[trigger] dists[l] != 0,
        decreases k - j,
    {
        if dists[j] == 0 {
            return Some(RowPlan::Full(j));
        }
        j = j + 1;
    }
    Some(RowPlan::Weighted)
}

/// The plan of every row of a table of distances, or `None` where some row
/// is empty.
pub fn plan_table(table: &Vec<Vec<u128>>) -> (r: Option<Vec<RowPlan>>)
    ensures
        r is Some <==> forall|i: int| 0 <= i < table.len() ==> (#[trigger] table[i]).len() > 0,
        r matches Some(plans) ==> is_table_plan(table@, plans@),
{
    let m = table.len();
    let mut plans: Vec<RowPlan> = Vec::new();
    let mut i: usize = 0;
    while i < m
        invariant
            i <= m,
            m == table.len(),
            plans.len() == i,
            forall|r: int| 0 <= r < i ==> (#[trigger] table[r]).len() > 0,
            forall|r: int| 0 <= r < i ==> is_plan(table[r]@, #[trigger] plans[r]),
        decreases m - i,
    {
        match plan_row(&table[i]) {
            Some(plan) => {
                plans.push(plan);
            },
            None => {
                return None;
            },
        }
        i = i + 1;
    }
    Some(plans)
}

/// The plan of every row of the membership matrix for lattice data.
///
/// Point `i` is planned as full membership where there is one cluster or
/// where it equals a centre (the first such centre), and as weighted
/// otherwise. The errors are those of nearest assignment: `NoClusters` for
/// an empty centre matrix, otherwise `DimensionMismatch` for differing
/// widths.
pub fn plan_memberships(data: &Grid, clusters: &Grid) -> (r: Result<Vec<RowPlan>, NearestError>)
    ensures
        match labels_error(data.width() as int, clusters.height() as int, clusters.width() as int) {
            Some(e) => r matches Err(x) && x == e,
            None => r matches Ok(plans) && is_membership_plan(
                data.rows(),
                clusters.rows(),
                plans@,
            ),
        },
{
    let (m, _dw) = data.dims();
    let (k, _cw) = clusters.dims();
    if k == 0 {
        return Err(NearestError::NoClusters);
    }
    let table = match distance_table(data, clusters) {
        Some(table) => table,
        None => {
            return Err(NearestError::DimensionMismatch);
        },
    };
    let plans = plan_table(&table).unwrap();
    proof {
        lemma_table_plan_is_point_plan(data.rows(), clusters.rows(), table@, plans@);
    }
    Ok(plans)
}

/// The membership row of a point that belongs fully to `cluster`, as bit
/// patterns of doubles: `1.0` in the column of that cluster and `0.0` in
/// every other.
pub open spec fn full_row_of(cluster: int, clusters: nat) -> Seq<u64> {
    Seq::new(
        clusters,
        |l: int|
            if l == cluster {
                ONE
            } else {
                0u64
            },
    )
}

/// The sum of the first `n` entries of a row of finite doubles that are
/// zero or positive, in units of `2^-1074`.
pub open spec fn total_magnitude(row: Seq<u64>, n: int) -> nat
    decreases n,
{
    if n <= 0 {
        0
    } else {
        total_magnitude(row, n - 1) + magnitude(row[n - 1])
    }
}

/// A full membership row sums to exactly one.
pub proof fn lemma_full_row_sums_to_one(cluster: int, clusters: nat)
    requires
        0 <= cluster < clusters,
    ensures
        total_magnitude(full_row_of(cluster, clusters), clusters as int) == pow2(1074),
{
    lemma_full_row_prefix(cluster, clusters, clusters as int);
}

/// The first `n` entries of a full membership row sum to one once they
/// include the column of the cluster, and to zero before.
proof fn lemma_full_row_prefix(cluster: int, clusters: nat, n: int)
    requires
        0 <= cluster < clusters,
        0 <= n <= clusters,
    ensures
        total_magnitude(full_row_of(cluster, clusters), n) == if cluster < n {
            pow2(1074)
        } else {
            0
        },
    decreases n,
{
    if n > 0 {
        lemma_full_row_prefix(cluster, clusters, n - 1);
        lemma_magnitude_of_constants();
    }
}

/// The membership row for a point that belongs fully to `cluster` among
/// `clusters` clusters, see `full_row_of`.
pub fn full_row(cluster: usize, clusters: usize) -> (row: Vec<u64>)
    ensures
        row@ == full_row_of(cluster as int, clusters as nat),
{
    let mut row: Vec<u64> = Vec::new();
    let mut l: usize = 0;
    while l < clusters
        invariant
            l <= clusters,
            row.len() == l,
            forall|c: int| 0 <= c < l ==> #[trigger] row[c] == full_row_of(cluster as int, clusters as nat)[c],
        decreases clusters - l,
    {
        row.push(if l == cluster { ONE } else { 0 });
        l = l + 1;
    }
    row
}

/// Whether a row planned as `plan` gives cluster `j` a share: a weighted
/// row gives every cluster one, a full row only its own cluster.
pub open spec fn gives_share(plan: RowPlan, j: int) -> bool {
    match plan {
        RowPlan::Full(l) => l == j,
        RowPlan::Weighted => true,
    }
}

/// Whether some row gives cluster `j` a share.
pub open spec fn has_share(plans: Seq<RowPlan>, j: int) -> bool {
    exists|i: int| 0 <= i < plans.len() && gives_share(#[trigger] plans[i], j)
}

/// Which centres the centre update may move, given the plans of all rows.
///
/// The new centre of a cluster is the centroid of the points weighted by
/// their memberships in it, which exists only where some point has a share
/// of the cluster. Entry `j` of the result says whether cluster `j` has
/// such a point; a cluster without one keeps its centre.
pub fn movable_centres(plans: &Vec<RowPlan>, clusters: usize) -> (moves: Vec<bool>)
    ensures
        moves.len() == clusters,
        forall|j: int| 0 <= j < clusters ==> #[trigger] moves[j] == has_share(plans@, j),
{
    let m = plans.len();
    let mut moves: Vec<bool> = Vec::new();
    let mut j: usize = 0;
    while j < clusters
        invariant
            j <= clusters,
            m == plans.len(),
            moves.len() == j,
            forall|c: int| 0 <= c < j ==> #[trigger] moves[c] == has_share(plans@, c),
        decreases clusters - j,
    {
        let mut found = false;
        let mut i: usize = 0;
        while i < m && !found
            invariant
                i <= m,
                m == plans.len(),
                found ==> has_share(plans@, j as int),
                !found ==> forall|r: int| 0 <= r < i ==> !gives_share(#[trigger] plans[r], j as int),
            decreases m - i,
        {
            let share = match plans[i] {
                RowPlan::Full(l) => l == j,
                RowPlan::Weighted => true,
            };
            if share {
                found = true;
            }
            i = i + 1;
        }
        moves.push(found);
        j = j + 1;
    }
    moves
}

} // verus!

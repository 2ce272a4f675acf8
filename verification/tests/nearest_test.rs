use fuzzy_cmeans::grid::Grid;
use fuzzy_cmeans::distance::distance_table;
use fuzzy_cmeans::nearest::{assign, compute_nearest, nearest_index, nearest_labels, NearestError};

fn grid(width: usize, rows: Vec<Vec<i32>>) -> Grid {
    Grid::from_rows(width, &rows).unwrap()
}

#[test]
fn nearest_index_of_empty_row_is_none() {
    assert_eq!(nearest_index(&vec![]), None);
}

#[test]
fn nearest_index_picks_smallest() {
    assert_eq!(nearest_index(&vec![9, 4, 7]), Some(1));
}

#[test]
fn nearest_index_tie_goes_to_first() {
    assert_eq!(nearest_index(&vec![5, 8, 5]), Some(0));
    assert_eq!(nearest_index(&vec![8, 5, 5, 5]), Some(1));
}

#[test]
fn labels_follow_the_closest_centre() {
    let data = grid(2, vec![vec![0, 0], vec![10, 10], vec![1, 2], vec![9, 7]]);
    let centres = grid(2, vec![vec![10, 10], vec![0, 0]]);
    assert_eq!(nearest_labels(&data, &centres), Ok(vec![1, 0, 1, 0]));
}

#[test]
fn equidistant_point_is_labelled_with_lowest_index() {
    let data = grid(1, vec![vec![0]]);
    let centres = grid(1, vec![vec![-3], vec![7], vec![3]]);
    assert_eq!(nearest_labels(&data, &centres), Ok(vec![0]));
}

#[test]
fn compute_nearest_appends_label_column() {
    let data = grid(2, vec![vec![0, 0], vec![10, 10]]);
    let centres = grid(2, vec![vec![9, 9], vec![1, 1]]);
    let out = compute_nearest(&data, &centres).unwrap();
    assert_eq!(out.dims(), (2, 3));
    assert_eq!(out.to_rows(), vec![vec![0, 0, 1], vec![10, 10, 0]]);
}

#[test]
fn no_clusters_is_an_error() {
    let data = grid(2, vec![vec![0, 0]]);
    let centres = grid(2, vec![]);
    assert_eq!(nearest_labels(&data, &centres), Err(NearestError::NoClusters));
    assert!(matches!(compute_nearest(&data, &centres), Err(NearestError::NoClusters)));
}

#[test]
fn width_mismatch_is_an_error() {
    let data = grid(2, vec![vec![0, 0]]);
    let centres = grid(3, vec![vec![0, 0, 0]]);
    assert_eq!(nearest_labels(&data, &centres), Err(NearestError::DimensionMismatch));
    assert!(matches!(compute_nearest(&data, &centres), Err(NearestError::DimensionMismatch)));
}

#[test]
fn distance_table_holds_every_pair() {
    let data = grid(2, vec![vec![0, 0], vec![3, 4], vec![-1, 1]]);
    let centres = grid(2, vec![vec![0, 0], vec![3, 0]]);
    assert_eq!(distance_table(&data, &centres), Some(vec![vec![0, 9], vec![25, 16], vec![2, 17]]));
}

#[test]
fn distance_table_needs_equal_widths() {
    let data = grid(2, vec![vec![0, 0]]);
    assert_eq!(distance_table(&data, &grid(1, vec![vec![0]])), None);
    assert_eq!(distance_table(&data, &grid(3, vec![])), None);
    assert_eq!(distance_table(&data, &grid(2, vec![])), Some(vec![vec![]]));
    assert_eq!(distance_table(&grid(2, vec![]), &grid(2, vec![vec![1, 1]])), Some(vec![]));
}

#[test]
fn assign_labels_every_row() {
    let table = vec![vec![4, 2, 2], vec![0, 0, 0], vec![9, 8, 7], vec![1]];
    assert_eq!(assign(&table), Some(vec![1, 0, 2, 0]));
    assert_eq!(assign(&vec![]), Some(vec![]));
}

#[test]
fn assign_needs_a_cluster_in_every_row() {
    assert_eq!(assign(&vec![vec![1, 2], vec![]]), None);
    assert_eq!(assign(&vec![vec![]]), None);
}

#[test]
fn labels_of_no_points_are_empty() {
    let data = grid(2, vec![]);
    let centres = grid(2, vec![vec![1, 1], vec![2, 2]]);
    assert_eq!(nearest_labels(&data, &centres), Ok(vec![]));
    let out = compute_nearest(&data, &centres).unwrap();
    assert_eq!(out.dims(), (0, 3));
}

#[test]
fn labels_in_zero_dimensions_are_all_zero() {
    let data = grid(0, vec![vec![], vec![]]);
    let centres = grid(0, vec![vec![], vec![], vec![]]);
    assert_eq!(nearest_labels(&data, &centres), Ok(vec![0, 0]));
    assert_eq!(compute_nearest(&data, &centres).unwrap().to_rows(), vec![vec![0], vec![0]]);
}

#[test]
fn labels_at_the_ends_of_the_lattice() {
    let data = grid(1, vec![vec![i32::MIN], vec![i32::MAX], vec![0], vec![-1]]);
    let centres = grid(1, vec![vec![i32::MAX], vec![i32::MIN]]);
    assert_eq!(nearest_labels(&data, &centres), Ok(vec![1, 0, 0, 1]));
}

#[test]
fn no_clusters_are_reported_before_a_width_mismatch() {
    let data = grid(2, vec![vec![0, 0]]);
    let centres = grid(7, vec![]);
    assert_eq!(nearest_labels(&data, &centres), Err(NearestError::NoClusters));
    assert!(matches!(compute_nearest(&data, &centres), Err(NearestError::NoClusters)));
}

#[test]
fn compute_nearest_leaves_its_input_alone() {
    let rows = vec![vec![1, 2], vec![3, 4], vec![5, 6]];
    let data = grid(2, rows.clone());
    let centres = grid(2, vec![vec![5, 5], vec![0, 0], vec![3, 3]]);
    let out = compute_nearest(&data, &centres).unwrap();
    assert_eq!(data.to_rows(), rows);
    assert_eq!(data.dims(), (3, 2));
    assert_eq!(out.to_rows(), vec![vec![1, 2, 1], vec![3, 4, 2], vec![5, 6, 0]]);
    assert_eq!(compute_nearest(&data, &centres).unwrap().to_rows(), out.to_rows());
}

use fuzzy_cmeans::grid::{fits, Grid};

#[test]
fn grid_keeps_rows_and_shape() {
    let rows = vec![vec![1, 2, 3], vec![4, 5, 6]];
    let g = Grid::from_rows(3, &rows).unwrap();
    assert_eq!(g.dims(), (2, 3));
    assert_eq!(g.to_rows(), rows);
    assert_eq!(g.row(0), Some(vec![1, 2, 3]));
    assert_eq!(g.row(1), Some(vec![4, 5, 6]));
    assert_eq!(g.row(2), None);
}

#[test]
fn grid_without_rows_has_a_width() {
    let g = Grid::from_rows(4, &vec![]).unwrap();
    assert_eq!(g.dims(), (0, 4));
    assert_eq!(g.to_rows(), Vec::<Vec<i32>>::new());
    assert_eq!(g.row(0), None);
}

#[test]
fn grid_without_columns_has_rows() {
    let g = Grid::from_rows(0, &vec![vec![], vec![], vec![]]).unwrap();
    assert_eq!(g.dims(), (3, 0));
    assert_eq!(g.to_rows(), vec![Vec::<i32>::new(), vec![], vec![]]);
}

#[test]
fn grid_refuses_rows_of_another_width() {
    assert!(Grid::from_rows(2, &vec![vec![1, 2], vec![3]]).is_none());
    assert!(Grid::from_rows(2, &vec![vec![1, 2, 3]]).is_none());
    assert!(Grid::from_rows(1, &vec![vec![]]).is_none());
}

#[test]
fn grid_refuses_a_width_beyond_the_limit() {
    assert!(Grid::from_rows(usize::MAX, &vec![]).is_none());
    assert!(Grid::from_rows(isize::MAX as usize, &vec![]).is_some());
}

#[test]
fn fits_follows_the_array_limits() {
    let limit = isize::MAX as usize;
    assert!(fits(0, 0));
    assert!(fits(0, limit));
    assert!(fits(limit, 0));
    assert!(!fits(0, limit + 1));
    assert!(!fits(limit + 1, 0));
    assert!(fits(1, limit / 4));
    assert!(!fits(1, limit / 4 + 1));
    assert!(fits(limit / 4, 1));
    assert!(!fits(2, limit / 4));
    assert!(!fits(usize::MAX, usize::MAX));
    assert!(fits(1000, 1000));
}

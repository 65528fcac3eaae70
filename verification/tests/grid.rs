use marching_squares::grid::GridError;
use marching_squares::grid::ScalarGrid;
use marching_squares::grid::ISOVALUE;
use marching_squares::grid::SAMPLE_ONE;

#[test]
fn threshold_is_half_of_one() {
    assert_eq!(2 * ISOVALUE, SAMPLE_ONE);
}

#[test]
fn grid_has_one_cell_less_than_samples_each_way() {
    let grid = ScalarGrid::new(vec![vec![0; 5]; 3]).unwrap();
    assert_eq!(grid.rows(), 2);
    assert_eq!(grid.cols(), 4);
}

#[test]
fn grid_keeps_its_samples() {
    let grid = ScalarGrid::new(vec![vec![1, 2, 3], vec![4, 5, 6]]).unwrap();
    assert_eq!(grid.sample(0, 0), 1);
    assert_eq!(grid.sample(0, 2), 3);
    assert_eq!(grid.sample(1, 0), 4);
    assert_eq!(grid.sample(1, 2), 6);
}

#[test]
fn empty_table_is_a_grid_without_cells() {
    let grid = ScalarGrid::new(Vec::new()).unwrap();
    assert_eq!(grid.rows(), 0);
    assert_eq!(grid.cols(), 0);
}

#[test]
fn table_of_empty_rows_is_a_grid_without_cells() {
    let grid = ScalarGrid::new(vec![Vec::new(), Vec::new(), Vec::new()]).unwrap();
    assert_eq!(grid.rows(), 2);
    assert_eq!(grid.cols(), 0);
}

#[test]
fn single_sample_is_a_grid_without_cells() {
    let grid = ScalarGrid::new(vec![vec![SAMPLE_ONE]]).unwrap();
    assert_eq!(grid.rows(), 0);
    assert_eq!(grid.cols(), 0);
}

#[test]
fn ragged_table_is_rejected_with_its_first_ragged_row() {
    let r = ScalarGrid::new(vec![vec![0, 0], vec![0, 0], vec![0], vec![0, 0, 0]]);
    assert_eq!(r.err(), Some(GridError::RaggedRow { row: 2 }));
    let r = ScalarGrid::new(vec![vec![0], vec![0, 0]]);
    assert_eq!(r.err(), Some(GridError::RaggedRow { row: 1 }));
    let r = ScalarGrid::new(vec![Vec::new(), vec![0]]);
    assert_eq!(r.err(), Some(GridError::RaggedRow { row: 1 }));
}

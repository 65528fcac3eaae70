use marching_squares::grid::ScalarGrid;
use marching_squares::grid::SAMPLE_ONE;
use marching_squares::tessellate::generate_vertices;

fn flat(rows: usize, cols: usize, value: i32) -> ScalarGrid {
    ScalarGrid::new(vec![vec![value; cols + 1]; rows + 1]).unwrap()
}

#[test]
fn field_below_threshold_gives_empty_mesh() {
    let grid = flat(4, 7, 0);
    let (positions, normals, uvs, indices) = generate_vertices(&grid, 10, true);
    assert_eq!(positions.len(), 0);
    assert_eq!(normals.len(), 0);
    assert_eq!(uvs.len(), 0);
    assert_eq!(indices.len(), 0);
}

#[test]
fn field_above_threshold_tiles_every_cell() {
    let grid = flat(4, 7, SAMPLE_ONE);
    let (positions, normals, uvs, indices) = generate_vertices(&grid, 10, true);
    assert_eq!(positions.len(), 4 * 4 * 7);
    assert_eq!(normals.len(), 4 * 4 * 7);
    assert_eq!(uvs.len(), 4 * 4 * 7);
    assert_eq!(indices.len(), 6 * 4 * 7);
}

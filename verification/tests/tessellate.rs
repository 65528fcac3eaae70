use marching_squares::cell::cell_case;
use marching_squares::cell::Position;
use marching_squares::grid::ScalarGrid;
use marching_squares::grid::DOMAIN_SIZE;
use marching_squares::grid::SAMPLE_ONE;
use marching_squares::mesh::Normal;
use marching_squares::mesh::TexCoord;
use marching_squares::ratio::Rational;
use marching_squares::template::case_template;
use marching_squares::tessellate::cells_per_side;
use marching_squares::tessellate::generate_vertices;

const ONE: i32 = SAMPLE_ONE;

fn grid_of(rows: &[&[i32]]) -> ScalarGrid {
    ScalarGrid::new(rows.iter().map(|r| r.to_vec()).collect()).unwrap()
}

fn units(rows: &[&[i32]]) -> ScalarGrid {
    ScalarGrid::new(rows.iter().map(|r| r.iter().map(|v| v * ONE).collect()).collect()).unwrap()
}

fn value(r: Rational) -> f64 {
    r.num as f64 / r.den as f64
}

fn place(p: &Position) -> (f64, f64, f64) {
    (value(p.x), value(p.y), value(p.z))
}

fn places(positions: &[Position]) -> Vec<(f64, f64, f64)> {
    positions.iter().map(place).collect()
}

/// A grid of samples between 0 and 1 from a fixed sequence of numbers.
fn scattered(rows: usize, cols: usize, seed: u64) -> ScalarGrid {
    let mut state = seed;
    let mut table = Vec::new();
    for _ in 0..=rows {
        let mut row = Vec::new();
        for _ in 0..=cols {
            state = state.wrapping_mul(6364136223846793005).wrapping_add(1442695040888963407);
            row.push(((state >> 40) % 65537) as i32);
        }
        table.push(row);
    }
    ScalarGrid::new(table).unwrap()
}

#[test]
fn cells_per_side_counts_whole_cells() {
    assert_eq!(DOMAIN_SIZE, 600);
    assert_eq!(cells_per_side(600, 10), 60);
    assert_eq!(cells_per_side(600, 7), 85);
    assert_eq!(cells_per_side(600, 50), 12);
    assert_eq!(cells_per_side(600, 601), 0);
    assert_eq!(cells_per_side(600, 0), 0);
}

#[test]
fn single_corner_triangle_has_exact_positions() {
    let grid = units(&[&[1, 0], &[0, 0]]);
    let (positions, normals, uvs, indices) = generate_vertices(&grid, 10, true);
    let zero = Rational { num: 0, den: 1 };
    // the corner of the domain, and five units on: (10 * 32768 - 300 * 65536) / 65536
    let low = Rational { num: -300, den: 1 };
    let middle = Rational { num: -19333120, den: 65536 };
    assert_eq!(
        positions,
        vec![
            Position { x: low, y: low, z: zero },
            Position { x: middle, y: low, z: zero },
            Position { x: low, y: middle, z: zero },
        ]
    );
    assert_eq!(normals, vec![Normal { x: 0, y: 0, z: 1 }; 3]);
    assert_eq!(uvs, vec![TexCoord { u: 0, v: 0 }; 3]);
    assert_eq!(indices, vec![0, 1, 2]);
}

#[test]
fn interpolation_moves_the_crossing_towards_the_lower_sample() {
    // top-left 1.0, top-right 0.25: the contour crosses the top edge two thirds along it
    let grid = grid_of(&[&[65536, 16384], &[0, 0]]);
    let (positions, _, _, indices) = generate_vertices(&grid, 10, true);
    assert_eq!(indices, vec![0, 1, 2]);
    assert_eq!(positions[1].x, Rational { num: -14417920, den: 49152 });
    assert_eq!(positions[1].y, Rational { num: -300, den: 1 });
    let p = places(&positions);
    assert_eq!(p[0], (-300.0, -300.0, 0.0));
    assert!((p[1].0 - (-300.0 + 10.0 * 2.0 / 3.0)).abs() < 1e-12);
    assert_eq!(p[2], (-300.0, -295.0, 0.0));
}

#[test]
fn without_interpolation_crossings_are_midpoints() {
    let grid = grid_of(&[&[65536, 16384], &[1, 32767]]);
    let (positions, _, _, indices) = generate_vertices(&grid, 10, false);
    assert_eq!(indices, vec![0, 1, 2]);
    assert_eq!(
        places(&positions),
        vec![(-300.0, -300.0, 0.0), (-295.0, -300.0, 0.0), (-300.0, -295.0, 0.0)]
    );
    assert_eq!(positions[1].x, Rational { num: -590, den: 2 });
    assert_eq!(positions[2].y, Rational { num: -590, den: 2 });
}

#[test]
fn midpoints_do_not_depend_on_the_samples() {
    let first = grid_of(&[&[65536, 0, 40000], &[0, 65536, 0], &[32768, 0, 65536]]);
    let second = grid_of(&[&[32768, 32767, 32768], &[-5, 2000000, 1], &[40000, 0, 99999]]);
    let a = generate_vertices(&first, 6, false);
    let b = generate_vertices(&second, 6, false);
    assert_eq!(a, b);
    for p in places(&a.0) {
        // every coordinate is a multiple of half a cell
        assert_eq!((p.0 / 3.0).fract(), 0.0);
        assert_eq!((p.1 / 3.0).fract(), 0.0);
    }
}

#[test]
fn pentagon_is_a_fan_of_three_triangles() {
    // every corner but the top-left one is inside
    let grid = units(&[&[0, 1], &[1, 1]]);
    let (positions, _, _, indices) = generate_vertices(&grid, 4, false);
    assert_eq!(
        places(&positions),
        vec![
            (-300.0, -296.0, 0.0),
            (-300.0, -298.0, 0.0),
            (-298.0, -300.0, 0.0),
            (-296.0, -300.0, 0.0),
            (-296.0, -296.0, 0.0),
        ]
    );
    assert_eq!(indices, vec![0, 1, 2, 0, 2, 3, 0, 3, 4]);
}

#[test]
fn half_rectangles_cover_the_inside_half() {
    let top = units(&[&[1, 1], &[0, 0]]);
    let (positions, _, _, indices) = generate_vertices(&top, 2, false);
    assert_eq!(
        places(&positions),
        vec![
            (-298.0, -299.0, 0.0),
            (-300.0, -299.0, 0.0),
            (-300.0, -300.0, 0.0),
            (-298.0, -300.0, 0.0)
        ]
    );
    assert_eq!(indices, vec![0, 1, 2, 0, 2, 3]);
    let left = units(&[&[1, 0], &[1, 0]]);
    let (positions, _, _, indices) = generate_vertices(&left, 2, false);
    assert_eq!(
        places(&positions),
        vec![
            (-300.0, -300.0, 0.0),
            (-299.0, -300.0, 0.0),
            (-299.0, -298.0, 0.0),
            (-300.0, -298.0, 0.0)
        ]
    );
    assert_eq!(indices, vec![0, 1, 2, 0, 2, 3]);
}

#[test]
fn two_by_two_scenario_follows_the_case_of_each_cell() {
    let samples: [[i32; 3]; 3] = [[ONE, ONE, 0], [ONE, 0, 0], [0, 0, 0]];
    let grid = ScalarGrid::new(samples.iter().map(|r| r.to_vec()).collect()).unwrap();
    let mut cases = Vec::new();
    for row in 0..2 {
        for col in 0..2 {
            cases.push(cell_case(
                samples[row][col],
                samples[row][col + 1],
                samples[row + 1][col + 1],
                samples[row + 1][col],
            ));
        }
    }
    assert_eq!(cases, vec![13, 8, 8, 0]);
    let triangles = [0, 1, 1, 2, 1, 2, 2, 3, 1, 2, 2, 3, 2, 3, 3, 2];
    let expected: usize = cases.iter().map(|c| triangles[*c as usize] * 3).sum();
    assert_eq!(expected, 15);
    let (positions, normals, uvs, indices) = generate_vertices(&grid, 10, true);
    assert_eq!(indices.len(), expected);
    assert_eq!(positions.len(), 11);
    assert_eq!(normals.len(), 11);
    assert_eq!(uvs.len(), 11);
    assert_eq!(indices, vec![0, 1, 2, 0, 2, 3, 0, 3, 4, 5, 6, 7, 8, 9, 10]);
    // the cells follow each other row by row: the second cell is the one to the right
    assert_eq!(place(&positions[5]), (-290.0, -300.0, 0.0));
    assert_eq!(place(&positions[8]), (-300.0, -290.0, 0.0));
}

#[test]
fn mesh_follows_the_templates_cell_by_cell() {
    let grid = scattered(9, 13, 7);
    let (positions, _, _, indices) = generate_vertices(&grid, 5, true);
    let mut vertices = 0;
    let mut expected_indices: Vec<u32> = Vec::new();
    for row in 0..9 {
        for col in 0..13 {
            let case = cell_case(
                grid.sample(row, col),
                grid.sample(row, col + 1),
                grid.sample(row + 1, col + 1),
                grid.sample(row + 1, col),
            );
            for polygon in case_template(case) {
                for k in 1..polygon.len() - 1 {
                    expected_indices.push(vertices);
                    expected_indices.push(vertices + k as u32);
                    expected_indices.push(vertices + k as u32 + 1);
                }
                vertices += polygon.len() as u32;
            }
        }
    }
    assert_eq!(positions.len(), vertices as usize);
    assert_eq!(indices, expected_indices);
}

#[test]
fn every_index_refers_to_a_vertex() {
    for seed in 0..20 {
        for lerped in [false, true] {
            let grid = scattered(8, 11, seed);
            let (positions, normals, uvs, indices) = generate_vertices(&grid, 7, lerped);
            assert_eq!(indices.len() % 3, 0);
            assert_eq!(normals.len(), positions.len());
            assert_eq!(uvs.len(), positions.len());
            assert!(indices.iter().all(|i| (*i as usize) < positions.len()));
            assert!(normals.iter().all(|n| *n == Normal { x: 0, y: 0, z: 1 }));
            assert!(uvs.iter().all(|t| *t == TexCoord { u: 0, v: 0 }));
            assert!(positions.iter().all(|p| p.z == Rational { num: 0, den: 1 }));
            assert!(positions.iter().all(|p| p.x.den > 0 && p.y.den > 0));
        }
    }
}

#[test]
fn every_triangle_runs_counter_clockwise() {
    for seed in 0..20 {
        for lerped in [false, true] {
            let grid = scattered(8, 11, seed);
            let (positions, _, _, indices) = generate_vertices(&grid, 7, lerped);
            let p = places(&positions);
            for t in indices.chunks(3) {
                let (a, b, c) = (p[t[0] as usize], p[t[1] as usize], p[t[2] as usize]);
                let turn = (b.0 - a.0) * (c.1 - a.1) - (b.1 - a.1) * (c.0 - a.0);
                assert!(turn > -1e-9, "turn {}", turn);
            }
        }
    }
}

#[test]
fn every_vertex_lies_within_the_grid() {
    let grid = scattered(6, 10, 3);
    let (positions, _, _, _) = generate_vertices(&grid, 8, true);
    for p in places(&positions) {
        assert!(-300.0 <= p.0 && p.0 <= -220.0);
        assert!(-300.0 <= p.1 && p.1 <= -252.0);
    }
}

#[test]
fn same_inputs_give_the_same_mesh() {
    let grid = scattered(12, 12, 99);
    let first = generate_vertices(&grid, 9, true);
    let second = generate_vertices(&grid, 9, true);
    assert_eq!(first, second);
    let copy = grid.clone();
    assert_eq!(generate_vertices(&copy, 9, true), first);
}

#[test]
fn saddle_triangles_share_no_vertex() {
    for lerped in [false, true] {
        for samples in [
            [[0, ONE], [ONE, 0]],
            [[ONE, 0], [0, ONE]],
            [[32767, 32768], [32768, 32767]],
            [[32768, 32767], [32767, 32768]],
            [[i32::MIN, i32::MAX], [32768, 0]],
        ] {
            let grid = ScalarGrid::new(samples.iter().map(|r| r.to_vec()).collect()).unwrap();
            let (positions, _, _, indices) = generate_vertices(&grid, 10, lerped);
            assert_eq!(positions.len(), 6);
            assert_eq!(indices, vec![0, 1, 2, 3, 4, 5]);
            for a in &positions[0..3] {
                for b in &positions[3..6] {
                    // compared exactly, by cross multiplication
                    let same_x = a.x.num * b.x.den == b.x.num * a.x.den;
                    let same_y = a.y.num * b.y.den == b.y.num * a.y.den;
                    assert!(!(same_x && same_y));
                }
            }
        }
    }
}

#[test]
fn grids_without_a_cell_give_the_empty_mesh() {
    for table in [
        Vec::new(),
        vec![Vec::new()],
        vec![vec![ONE]],
        vec![vec![ONE, ONE, ONE]],
        vec![vec![ONE], vec![ONE], vec![ONE]],
    ] {
        let grid = ScalarGrid::new(table).unwrap();
        let (positions, normals, uvs, indices) = generate_vertices(&grid, 10, true);
        assert!(positions.is_empty());
        assert!(normals.is_empty());
        assert!(uvs.is_empty());
        assert!(indices.is_empty());
    }
}

#[test]
fn cell_size_zero_gives_the_empty_mesh() {
    let grid = units(&[&[1, 1, 1], &[1, 1, 1], &[1, 1, 1]]);
    let (positions, normals, uvs, indices) = generate_vertices(&grid, 0, true);
    assert!(positions.is_empty());
    assert!(normals.is_empty());
    assert!(uvs.is_empty());
    assert!(indices.is_empty());
}

#[test]
fn grid_starts_at_the_corner_of_the_domain() {
    let grid = units(&[&[1, 1, 1, 1], &[1, 1, 1, 1]]);
    let (positions, _, _, _) = generate_vertices(&grid, 7, true);
    let p = places(&positions);
    // three cells of side 7 in one row: x from -300 to -279, y from -300 to -293
    assert_eq!(p[0], (-300.0, -300.0, 0.0));
    assert_eq!(p[1], (-293.0, -300.0, 0.0));
    assert_eq!(p[2], (-293.0, -293.0, 0.0));
    assert_eq!(p[3], (-300.0, -293.0, 0.0));
    assert_eq!(p[10], (-279.0, -293.0, 0.0));
}

#[test]
fn full_field_tiles_the_squares_of_the_lattice() {
    for size in [7u32, 10, 50, 400] {
        let n = cells_per_side(DOMAIN_SIZE, size) as usize;
        let grid = ScalarGrid::new(vec![vec![ONE; n + 1]; n + 1]).unwrap();
        for lerped in [false, true] {
            let (positions, normals, uvs, indices) = generate_vertices(&grid, size, lerped);
            assert_eq!(positions.len(), 4 * n * n);
            assert_eq!(normals.len(), 4 * n * n);
            assert_eq!(uvs.len(), 4 * n * n);
            assert_eq!(indices.len(), 6 * n * n);
            let p = places(&positions);
            let s = size as f64;
            for r in 0..n {
                for c in 0..n {
                    let k = r * n + c;
                    let (x, y) = (c as f64 * s - 300.0, r as f64 * s - 300.0);
                    assert_eq!(
                        p[4 * k..4 * k + 4],
                        [(x, y, 0.0), (x + s, y, 0.0), (x + s, y + s, 0.0), (x, y + s, 0.0)]
                    );
                    let v = 4 * k as u32;
                    assert_eq!(indices[6 * k..6 * k + 6], [v, v + 1, v + 2, v, v + 2, v + 3]);
                }
            }
        }
    }
}

#[test]
fn cell_size_that_does_not_divide_the_domain_leaves_a_margin_at_the_far_side() {
    // 85 cells of side 7 reach from -300 to 295
    let grid = ScalarGrid::new(vec![vec![ONE; 86]; 86]).unwrap();
    let (positions, _, _, _) = generate_vertices(&grid, 7, true);
    let p = places(&positions);
    assert_eq!(p[0], (-300.0, -300.0, 0.0));
    assert_eq!(p[p.len() - 2], (295.0, 295.0, 0.0));
    // one cell of side 400 is the square from -300 to 100
    let grid = units(&[&[1, 1], &[1, 1]]);
    let (positions, _, _, _) = generate_vertices(&grid, 400, true);
    assert_eq!(
        places(&positions),
        vec![
            (-300.0, -300.0, 0.0),
            (100.0, -300.0, 0.0),
            (100.0, 100.0, 0.0),
            (-300.0, 100.0, 0.0)
        ]
    );
}

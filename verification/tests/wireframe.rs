use marching_squares::cell::Position;
use marching_squares::grid::ScalarGrid;
use marching_squares::grid::SAMPLE_ONE;
use marching_squares::ratio::Rational;
use marching_squares::tessellate::generate_vertices;
use marching_squares::wireframe::wireframe_segments;
use marching_squares::wireframe::Segment;

fn at(x: i128, y: i128) -> Position {
    Position {
        x: Rational { num: x, den: 1 },
        y: Rational { num: y, den: 1 },
        z: Rational { num: 0, den: 1 },
    }
}

#[test]
fn wireframe_has_the_three_sides_of_each_triangle() {
    let positions = vec![at(0, 0), at(1, 0), at(1, 1), at(0, 1)];
    let indices = vec![0, 1, 2, 0, 2, 3];
    assert_eq!(
        wireframe_segments(&positions, &indices),
        vec![
            Segment { from: at(0, 0), to: at(1, 0) },
            Segment { from: at(1, 0), to: at(1, 1) },
            Segment { from: at(1, 1), to: at(0, 0) },
            Segment { from: at(0, 0), to: at(1, 1) },
            Segment { from: at(1, 1), to: at(0, 1) },
            Segment { from: at(0, 1), to: at(0, 0) },
        ]
    );
}

#[test]
fn wireframe_passes_over_indices_that_make_no_triangle() {
    let positions = vec![at(0, 0), at(1, 0), at(1, 1)];
    assert_eq!(wireframe_segments(&positions, &vec![0, 1]).len(), 0);
    assert_eq!(wireframe_segments(&positions, &vec![0, 1, 2, 0]).len(), 3);
    assert_eq!(wireframe_segments(&positions, &Vec::new()).len(), 0);
}

#[test]
fn wireframe_of_a_tessellated_grid() {
    let grid = ScalarGrid::new(vec![vec![SAMPLE_ONE; 4]; 3]).unwrap();
    let (positions, _, _, indices) = generate_vertices(&grid, 10, true);
    let segments = wireframe_segments(&positions, &indices);
    assert_eq!(segments.len(), indices.len());
    assert_eq!(segments.len(), 3 * 2 * 6);
    assert_eq!(segments[0], Segment { from: positions[0], to: positions[1] });
    assert_eq!(segments[2], Segment { from: positions[2], to: positions[0] });
}

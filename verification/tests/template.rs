use marching_squares::cell::CellPoint;
use marching_squares::template::case_template;

#[test]
fn every_case_has_the_triangles_of_the_table() {
    let triangles = [0, 1, 1, 2, 1, 2, 2, 3, 1, 2, 2, 3, 2, 3, 3, 2];
    for case in 0u8..16 {
        let polygons = case_template(case);
        let count: usize = polygons.iter().map(|p| p.len() - 2).sum();
        assert_eq!(count, triangles[case as usize], "case {}", case);
    }
}

#[test]
fn every_case_has_the_vertices_of_the_table() {
    let vertices = [0, 3, 3, 4, 3, 6, 4, 5, 3, 4, 6, 5, 4, 5, 5, 4];
    for case in 0u8..16 {
        let polygons = case_template(case);
        let count: usize = polygons.iter().map(|p| p.len()).sum();
        assert_eq!(count, vertices[case as usize], "case {}", case);
    }
}

#[test]
fn cases_above_fifteen_have_no_polygon() {
    assert_eq!(case_template(16).len(), 0);
    assert_eq!(case_template(200).len(), 0);
    assert_eq!(case_template(255).len(), 0);
}

#[test]
fn empty_case_has_no_polygon() {
    assert_eq!(case_template(0).len(), 0);
}

#[test]
fn full_case_is_the_whole_square() {
    assert_eq!(
        case_template(15),
        vec![vec![
            CellPoint::TopLeft,
            CellPoint::TopRight,
            CellPoint::BottomRight,
            CellPoint::BottomLeft
        ]]
    );
}

#[test]
fn saddle_cases_are_two_separate_corner_triangles() {
    assert_eq!(
        case_template(5),
        vec![
            vec![CellPoint::LeftEdge, CellPoint::BottomEdge, CellPoint::BottomLeft],
            vec![CellPoint::TopRight, CellPoint::RightEdge, CellPoint::TopEdge],
        ]
    );
    assert_eq!(
        case_template(10),
        vec![
            vec![CellPoint::BottomEdge, CellPoint::RightEdge, CellPoint::BottomRight],
            vec![CellPoint::TopLeft, CellPoint::TopEdge, CellPoint::LeftEdge],
        ]
    );
}

#[test]
fn a_template_uses_exactly_the_inside_corners_and_the_crossed_edges() {
    let corners = [
        (CellPoint::TopLeft, 8u8),
        (CellPoint::TopRight, 4),
        (CellPoint::BottomRight, 2),
        (CellPoint::BottomLeft, 1),
    ];
    let edges = [
        (CellPoint::TopEdge, 8u8, 4u8),
        (CellPoint::RightEdge, 4, 2),
        (CellPoint::BottomEdge, 1, 2),
        (CellPoint::LeftEdge, 8, 1),
    ];
    for case in 0u8..16 {
        let used: Vec<CellPoint> = case_template(case).into_iter().flatten().collect();
        for (corner, bit) in corners {
            let times = used.iter().filter(|p| **p == corner).count();
            assert_eq!(times, if case & bit != 0 { 1 } else { 0 }, "case {}", case);
        }
        for (edge, first, second) in edges {
            let crossed = (case & first != 0) != (case & second != 0);
            let times = used.iter().filter(|p| **p == edge).count();
            assert_eq!(times, if crossed { 1 } else { 0 }, "case {}", case);
        }
    }
}

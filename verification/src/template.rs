//! The sixteen triangulation templates, as data.
//!
//! A template is a list of convex polygons over the eight points of a cell.
//! Each polygon is cut into a fan of triangles around its first point, and its
//! points are listed counter-clockwise as seen with `x` to the right and `y`
//! upwards, so that every triangle faces the normal `(0, 0, 1)`.

use crate::cell::edge_ends;
use crate::cell::CellPoint;
use vstd::prelude::*;

verus! {

/// The polygons of a case. The cases from 1 to 14 fill the part of the cell
/// that lies on the inside of the contour; a case above 15 has no polygon.
///
/// In the two saddle cases, 5 and 10, two opposite corners are inside. They
/// are covered by two separate corner triangles, with no bridge between them.
pub open spec fn case_polygons(case: int) -> Seq<Seq<CellPoint>> {
    if case == 1 {
        seq![seq![CellPoint::LeftEdge, CellPoint::BottomEdge, CellPoint::BottomLeft]]
    } else if case == 2 {
        seq![seq![CellPoint::BottomEdge, CellPoint::RightEdge, CellPoint::BottomRight]]
    } else if case == 3 {
        seq![
            seq![
                CellPoint::LeftEdge,
                CellPoint::RightEdge,
                CellPoint::BottomRight,
                CellPoint::BottomLeft,
            ],
        ]
    } else if case == 4 {
        seq![seq![CellPoint::TopRight, CellPoint::RightEdge, CellPoint::TopEdge]]
    } else if case == 5 {
        seq![
            seq![CellPoint::LeftEdge, CellPoint::BottomEdge, CellPoint::BottomLeft],
            seq![CellPoint::TopRight, CellPoint::RightEdge, CellPoint::TopEdge],
        ]
    } else if case == 6 {
        seq![
            seq![
                CellPoint::TopEdge,
                CellPoint::TopRight,
                CellPoint::BottomRight,
                CellPoint::BottomEdge,
            ],
        ]
    } else if case == 7 {
        seq![
            seq![
                CellPoint::BottomLeft,
                CellPoint::LeftEdge,
                CellPoint::TopEdge,
                CellPoint::TopRight,
                CellPoint::BottomRight,
            ],
        ]
    } else if case == 8 {
        seq![seq![CellPoint::TopLeft, CellPoint::TopEdge, CellPoint::LeftEdge]]
    } else if case == 9 {
        seq![
            seq![
                CellPoint::TopLeft,
                CellPoint::TopEdge,
                CellPoint::BottomEdge,
                CellPoint::BottomLeft,
            ],
        ]
    } else if case == 10 {
        seq![
            seq![CellPoint::BottomEdge, CellPoint::RightEdge, CellPoint::BottomRight],
            seq![CellPoint::TopLeft, CellPoint::TopEdge, CellPoint::LeftEdge],
        ]
    } else if case == 11 {
        seq![
            seq![
                CellPoint::BottomRight,
                CellPoint::BottomLeft,
                CellPoint::TopLeft,
                CellPoint::TopEdge,
                CellPoint::RightEdge,
            ],
        ]
    } else if case == 12 {
        seq![
            seq![
                CellPoint::RightEdge,
                CellPoint::LeftEdge,
                CellPoint::TopLeft,
                CellPoint::TopRight,
            ],
        ]
    } else if case == 13 {
        seq![
            seq![
                CellPoint::TopRight,
                CellPoint::RightEdge,
                CellPoint::BottomEdge,
                CellPoint::BottomLeft,
                CellPoint::TopLeft,
            ],
        ]
    } else if case == 14 {
        seq![
            seq![
                CellPoint::TopLeft,
                CellPoint::TopRight,
                CellPoint::BottomRight,
                CellPoint::BottomEdge,
                CellPoint::LeftEdge,
            ],
        ]
    } else if case == 15 {
        seq![
            seq![
                CellPoint::TopLeft,
                CellPoint::TopRight,
                CellPoint::BottomRight,
                CellPoint::BottomLeft,
            ],
        ]
    } else {
        seq![]
    }
}

/// Whether a corner is inside the contour, read from the case.
pub open spec fn corner_in_case(case: int, corner: CellPoint) -> bool {
    match corner {
        CellPoint::TopLeft => case / 8 % 2 == 1,
        CellPoint::TopRight => case / 4 % 2 == 1,
        CellPoint::BottomRight => case / 2 % 2 == 1,
        CellPoint::BottomLeft => case % 2 == 1,
        _ => false,
    }
}

/// Whether a point belongs to the boundary of the inside region of a case:
/// a corner does when it is inside, the crossing point of an edge does when
/// one end of the edge is inside and the other is not.
pub open spec fn point_in_case(case: int, point: CellPoint) -> bool {
    if point.is_corner() {
        corner_in_case(case, point)
    } else {
        corner_in_case(case, edge_ends(point).0) != corner_in_case(case, edge_ends(point).1)
    }
}

/// The polygons held by nested vectors, as nested sequences.
pub open spec fn polygons_of(polygons: Seq<Vec<CellPoint>>) -> Seq<Seq<CellPoint>> {
    Seq::new(polygons.len(), |i: int| polygons[i]@)
}

/// The number of triangles in the fan of a polygon of `points` points.
pub open spec fn fan_triangles(points: nat) -> nat {
    if points < 3 {
        0
    } else {
        (points - 2) as nat
    }
}

/// The number of triangles that a list of polygons is cut into.
pub open spec fn triangle_count<T>(polygons: Seq<Seq<T>>) -> nat
    decreases polygons.len(),
{
    if polygons.len() == 0 {
        0
    } else {
        triangle_count(polygons.drop_last()) + fan_triangles(polygons.last().len())
    }
}

/// The number of points in a list of polygons.
pub open spec fn point_count<T>(polygons: Seq<Seq<T>>) -> nat
    decreases polygons.len(),
{
    if polygons.len() == 0 {
        0
    } else {
        point_count(polygons.drop_last()) + polygons.last().len()
    }
}

/// The number of triangles of each case, from case 0 to case 15.
pub open spec fn triangles_per_case() -> Seq<nat> {
    seq![0, 1, 1, 2, 1, 2, 2, 3, 1, 2, 2, 3, 2, 3, 3, 2]
}

/// The number of vertices of each case, from case 0 to case 15.
pub open spec fn points_per_case() -> Seq<nat> {
    seq![0, 3, 3, 4, 3, 6, 4, 5, 3, 4, 6, 5, 4, 5, 5, 4]
}

/// The template of a case: its polygons, each with its points in order.
pub fn case_template(case: u8) -> (polygons: Vec<Vec<CellPoint>>)
    ensures
        polygons_of(polygons@) == case_polygons(case as int),
{
    let polygons = match case {
        1 => vec![vec![CellPoint::LeftEdge, CellPoint::BottomEdge, CellPoint::BottomLeft]],
        2 => vec![vec![CellPoint::BottomEdge, CellPoint::RightEdge, CellPoint::BottomRight]],
        3 => vec![
            vec![
                CellPoint::LeftEdge,
                CellPoint::RightEdge,
                CellPoint::BottomRight,
                CellPoint::BottomLeft,
            ],
        ],
        4 => vec![vec![CellPoint::TopRight, CellPoint::RightEdge, CellPoint::TopEdge]],
        5 => vec![
            vec![CellPoint::LeftEdge, CellPoint::BottomEdge, CellPoint::BottomLeft],
            vec![CellPoint::TopRight, CellPoint::RightEdge, CellPoint::TopEdge],
        ],
        6 => vec![
            vec![
                CellPoint::TopEdge,
                CellPoint::TopRight,
                CellPoint::BottomRight,
                CellPoint::BottomEdge,
            ],
        ],
        7 => vec![
            vec![
                CellPoint::BottomLeft,
                CellPoint::LeftEdge,
                CellPoint::TopEdge,
                CellPoint::TopRight,
                CellPoint::BottomRight,
            ],
        ],
        8 => vec![vec![CellPoint::TopLeft, CellPoint::TopEdge, CellPoint::LeftEdge]],
        9 => vec![
            vec![
                CellPoint::TopLeft,
                CellPoint::TopEdge,
                CellPoint::BottomEdge,
                CellPoint::BottomLeft,
            ],
        ],
        10 => vec![
            vec![CellPoint::BottomEdge, CellPoint::RightEdge, CellPoint::BottomRight],
            vec![CellPoint::TopLeft, CellPoint::TopEdge, CellPoint::LeftEdge],
        ],
        11 => vec![
            vec![
                CellPoint::BottomRight,
                CellPoint::BottomLeft,
                CellPoint::TopLeft,
                CellPoint::TopEdge,
                CellPoint::RightEdge,
            ],
        ],
        12 => vec![
            vec![
                CellPoint::RightEdge,
                CellPoint::LeftEdge,
                CellPoint::TopLeft,
                CellPoint::TopRight,
            ],
        ],
        13 => vec![
            vec![
                CellPoint::TopRight,
                CellPoint::RightEdge,
                CellPoint::BottomEdge,
                CellPoint::BottomLeft,
                CellPoint::TopLeft,
            ],
        ],
        14 => vec![
            vec![
                CellPoint::TopLeft,
                CellPoint::TopRight,
                CellPoint::BottomRight,
                CellPoint::BottomEdge,
                CellPoint::LeftEdge,
            ],
        ],
        15 => vec![
            vec![
                CellPoint::TopLeft,
                CellPoint::TopRight,
                CellPoint::BottomRight,
                CellPoint::BottomLeft,
            ],
        ],
        _ => Vec::new(),
    };
    assert(polygons_of(polygons@) =~~= case_polygons(case as int));
    polygons
}

/// A template has at most two polygons, and each has from three to five points.
pub proof fn lemma_case_polygons_shape(case: int)
    ensures
        case_polygons(case).len() <= 2,
        forall|i: int|
            0 <= i < case_polygons(case).len() ==> 3 <= (#[trigger] case_polygons(case)[i]).len()
                <= 5,
        point_count(case_polygons(case)) <= 6,
{
    reveal_with_fuel(point_count, 3);
}

/// Each of the sixteen cases is cut into the number of triangles that the
/// table gives for it, and has the number of vertices that the table gives.
pub proof fn lemma_case_triangle_count(case: int)
    requires
        0 <= case <= 15,
    ensures
        triangle_count(case_polygons(case)) == triangles_per_case()[case],
        point_count(case_polygons(case)) == points_per_case()[case],
{
    reveal_with_fuel(triangle_count, 3);
    reveal_with_fuel(point_count, 3);
}

/// A template uses the inside corners of its case and the crossing points
/// of the crossed edges, and no other point.
pub proof fn lemma_template_points_in_case(case: int, polygon: int, point: int)
    requires
        0 <= case <= 15,
        0 <= polygon < case_polygons(case).len(),
        0 <= point < case_polygons(case)[polygon].len(),
    ensures
        point_in_case(case, case_polygons(case)[polygon][point]),
{
}

/// A template uses every inside corner of its case and the crossing point
/// of every crossed edge.
pub proof fn lemma_template_covers_case(case: int, point: CellPoint)
    requires
        0 <= case <= 15,
        point_in_case(case, point),
    ensures
        exists|i: int, j: int|
            0 <= i < case_polygons(case).len() && 0 <= j < case_polygons(case)[i].len()
                && #[trigger] case_polygons(case)[i][j] == point,
{
    let polygons = case_polygons(case);
    if polygons.len() > 0 && polygons[0].len() > 0 && polygons[0][0] == point {
    } else if polygons.len() > 0 && polygons[0].len() > 1 && polygons[0][1] == point {
    } else if polygons.len() > 0 && polygons[0].len() > 2 && polygons[0][2] == point {
    } else if polygons.len() > 0 && polygons[0].len() > 3 && polygons[0][3] == point {
    } else if polygons.len() > 0 && polygons[0].len() > 4 && polygons[0][4] == point {
    } else if polygons.len() > 1 && polygons[1].len() > 0 && polygons[1][0] == point {
    } else if polygons.len() > 1 && polygons[1].len() > 1 && polygons[1][1] == point {
    } else if polygons.len() > 1 && polygons[1].len() > 2 && polygons[1][2] == point {
    } else if polygons.len() > 1 && polygons[1].len() > 3 && polygons[1][3] == point {
    } else if polygons.len() > 1 && polygons[1].len() > 4 && polygons[1][4] == point {
    } else {
        assert(!point_in_case(case, point));
    }
}

/// No point occurs twice in a template: two places in it hold two
/// different points.
pub proof fn lemma_template_points_distinct(
    case: int,
    polygon: int,
    point: int,
    other_polygon: int,
    other_point: int,
)
    requires
        0 <= case <= 15,
        0 <= polygon < case_polygons(case).len(),
        0 <= point < case_polygons(case)[polygon].len(),
        0 <= other_polygon < case_polygons(case).len(),
        0 <= other_point < case_polygons(case)[other_polygon].len(),
        polygon != other_polygon || point != other_point,
    ensures
        case_polygons(case)[polygon][point] != case_polygons(case)[other_polygon][other_point],
{
}

} // verus!

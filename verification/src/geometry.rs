//! Where the points of a cell lie: laws about exact world positions.
//!
//! The laws speak of the real numbers that the exact coordinates stand for.
//! Within a cell a point is best described by its local place: how far it
//! lies from the top-left corner, as a fraction of the cell's side, along
//! `x` and along `y`.

use crate::cell::case_index;
use crate::cell::lemma_case_index_bits;
use crate::cell::lemma_case_index_range;
use crate::cell::coordinate;
use crate::cell::edge_ends;
use crate::cell::edge_ratios;
use crate::cell::is_inside;
use crate::cell::point_at;
use crate::cell::CellPoint;
use crate::cell::EdgeRatios;
use crate::cell::Point;
use crate::grid::domain_start;
use crate::grid::ISOVALUE;
use crate::ratio::lemma_lerp_ratio_crossing;
use crate::ratio::lemma_lerp_ratio_proper;
use crate::ratio::lemma_zero_value;
use crate::ratio::Ratio;
use crate::template::case_polygons;
use crate::template::lemma_template_points_in_case;
use crate::template::point_in_case;
use vstd::prelude::*;

verus! {

impl EdgeRatios {
    /// All four fractions have a positive denominator.
    pub open spec fn is_proper(self) -> bool {
        &&& self.top.is_proper()
        &&& self.right.is_proper()
        &&& self.bottom.is_proper()
        &&& self.left.is_proper()
    }
}

impl Point {
    /// The two points lie at the same place, whatever the quotients that
    /// their coordinates are written as.
    pub open spec fn same_place(self, other: Point) -> bool {
        &&& self.x.value() == other.x.value()
        &&& self.y.value() == other.y.value()
        &&& self.z.value() == other.z.value()
    }
}

/// How far a point lies to the right of the cell's left side, as a fraction
/// of the cell's side.
pub open spec fn local_x(point: CellPoint, fractions: EdgeRatios) -> real {
    match point {
        CellPoint::TopLeft | CellPoint::BottomLeft | CellPoint::LeftEdge => 0 as real,
        CellPoint::TopRight | CellPoint::BottomRight | CellPoint::RightEdge => 1 as real,
        CellPoint::TopEdge => fractions.top.value(),
        CellPoint::BottomEdge => fractions.bottom.value(),
    }
}

/// How far a point lies below the cell's top side, as a fraction of the
/// cell's side.
pub open spec fn local_y(point: CellPoint, fractions: EdgeRatios) -> real {
    match point {
        CellPoint::TopLeft | CellPoint::TopRight | CellPoint::TopEdge => 0 as real,
        CellPoint::BottomLeft | CellPoint::BottomRight | CellPoint::BottomEdge => 1 as real,
        CellPoint::RightEdge => fractions.right.value(),
        CellPoint::LeftEdge => fractions.left.value(),
    }
}

/// The value of a world coordinate: the start of the domain, plus the cell
/// size times the sum of the number of the lattice line and the offset.
pub proof fn lemma_coordinate_value(index: int, size: int, offset: Ratio)
    requires
        offset.is_proper(),
    ensures
        coordinate(index, size, offset).is_proper(),
        coordinate(index, size, offset).value() == size as real * (index as real
            + offset.value()) + domain_start() as real,
{
    let n = offset.num;
    let d = offset.den;
    let c = domain_start();
    assert((size * (index * d + n) + c * d) as real / d as real == size as real * (index as real
        + n as real / d as real) + c as real) by (nonlinear_arith)
        requires
            d > 0,
    ;
}

/// The world position of a point of a cell: the position of the cell's
/// top-left corner, plus the cell size times the point's local place. Every
/// point lies in the plane `z = 0`.
pub proof fn lemma_point_at_value(
    point: CellPoint,
    col: int,
    row: int,
    size: int,
    fractions: EdgeRatios,
)
    requires
        fractions.is_proper(),
    ensures
        ({
            let p = point_at(point, col, row, size, fractions);
            &&& p.x.is_proper() && p.y.is_proper() && p.z.is_proper()
            &&& p.x.value() == size as real * (col as real + local_x(point, fractions))
                + domain_start() as real
            &&& p.y.value() == size as real * (row as real + local_y(point, fractions))
                + domain_start() as real
            &&& p.z.value() == 0 as real
        }),
{
    match point {
        CellPoint::TopLeft => {
            lemma_near_line_value(col, size);
            lemma_near_line_value(row, size);
        },
        CellPoint::TopRight => {
            lemma_far_line_value(col, size);
            lemma_near_line_value(row, size);
        },
        CellPoint::BottomRight => {
            lemma_far_line_value(col, size);
            lemma_far_line_value(row, size);
        },
        CellPoint::BottomLeft => {
            lemma_near_line_value(col, size);
            lemma_far_line_value(row, size);
        },
        CellPoint::TopEdge => {
            lemma_coordinate_value(col, size, fractions.top);
            lemma_near_line_value(row, size);
        },
        CellPoint::RightEdge => {
            lemma_far_line_value(col, size);
            lemma_coordinate_value(row, size, fractions.right);
        },
        CellPoint::BottomEdge => {
            lemma_coordinate_value(col, size, fractions.bottom);
            lemma_far_line_value(row, size);
        },
        CellPoint::LeftEdge => {
            lemma_near_line_value(col, size);
            lemma_coordinate_value(row, size, fractions.left);
        },
    }
    lemma_zero_value();
}

/// The lattice line on the near side of a cell, the left or the top one,
/// lies at the local place 0.
proof fn lemma_near_line_value(index: int, size: int)
    ensures
        coordinate(index, size, Ratio::zero()).is_proper(),
        coordinate(index, size, Ratio::zero()).value() == size as real * (index as real
            + 0 as real) + domain_start() as real,
{
    let c = domain_start();
    assert((size * (index * 1 + 0) + c * 1) as real / 1 as real == size as real * (index as real
        + 0 as real) + c as real) by (nonlinear_arith);
}

/// The lattice line on the far side of a cell, the right or the bottom one,
/// lies at the local place 1.
proof fn lemma_far_line_value(index: int, size: int)
    ensures
        coordinate(index + 1, size, Ratio::zero()).is_proper(),
        coordinate(index + 1, size, Ratio::zero()).value() == size as real * (index as real
            + 1 as real) + domain_start() as real,
{
    let c = domain_start();
    assert((size * ((index + 1) * 1 + 0) + c * 1) as real / 1 as real == size as real * (
    index as real + 1 as real) + c as real) by (nonlinear_arith);
}

/// With interpolation off, the crossing point of every edge lies exactly in
/// the middle between the two corners of the edge, whatever the samples at
/// the corners are.
pub proof fn lemma_midpoint_placement(
    edge: CellPoint,
    col: int,
    row: int,
    size: int,
    top_left: int,
    top_right: int,
    bottom_right: int,
    bottom_left: int,
)
    requires
        edge.is_edge(),
    ensures
        ({
            let fractions = edge_ratios(top_left, top_right, bottom_right, bottom_left, false);
            let p = point_at(edge, col, row, size, fractions);
            let a = point_at(edge_ends(edge).0, col, row, size, fractions);
            let b = point_at(edge_ends(edge).1, col, row, size, fractions);
            &&& p.x.value() == (a.x.value() + b.x.value()) / 2 as real
            &&& p.y.value() == (a.y.value() + b.y.value()) / 2 as real
            &&& p.z.value() == (a.z.value() + b.z.value()) / 2 as real
        }),
{
    let fractions = edge_ratios(top_left, top_right, bottom_right, bottom_left, false);
    lemma_point_at_value(edge, col, row, size, fractions);
    lemma_point_at_value(edge_ends(edge).0, col, row, size, fractions);
    lemma_point_at_value(edge_ends(edge).1, col, row, size, fractions);
    let s = size as real;
    let ox = col as real;
    let oy = row as real;
    let h = 1 as real / 2 as real;
    let c = domain_start() as real;
    assert(s * (ox + h) + c == ((s * (ox + 0 as real) + c) + (s * (ox + 1 as real) + c))
        / 2 as real) by (nonlinear_arith)
        requires
            h == 1 as real / 2 as real,
    ;
    assert(s * (oy + h) + c == ((s * (oy + 0 as real) + c) + (s * (oy + 1 as real) + c))
        / 2 as real) by (nonlinear_arith)
        requires
            h == 1 as real / 2 as real,
    ;
}

/// A quotient in the unit interval has a value from 0 to 1. The value is
/// positive when the numerator is, and below 1 when the numerator is below
/// the denominator.
pub proof fn lemma_unit_interval_value(ratio: Ratio)
    requires
        ratio.in_unit_interval(),
    ensures
        0 as real <= ratio.value() <= 1 as real,
        0 < ratio.num ==> ratio.value() > 0 as real,
        ratio.num < ratio.den ==> ratio.value() < 1 as real,
{
    let n = ratio.num;
    let d = ratio.den;
    let v = n as real / d as real;
    assert(0 as real <= v <= 1 as real && (0 < n ==> v > 0 as real) && (n < d ==> v < 1 as real))
        by (nonlinear_arith)
        requires
            d > 0,
            0 <= n <= d,
            v == n as real / d as real,
    ;
}

impl EdgeRatios {
    /// The fraction that belongs to an edge (and zero for a corner).
    pub open spec fn of(self, edge: CellPoint) -> Ratio {
        match edge {
            CellPoint::TopEdge => self.top,
            CellPoint::RightEdge => self.right,
            CellPoint::BottomEdge => self.bottom,
            CellPoint::LeftEdge => self.left,
            _ => Ratio::zero(),
        }
    }
}

/// The sample at a corner of the cell with the given corner samples.
pub open spec fn corner_sample(
    corner: CellPoint,
    top_left: int,
    top_right: int,
    bottom_right: int,
    bottom_left: int,
) -> int {
    match corner {
        CellPoint::TopLeft => top_left,
        CellPoint::TopRight => top_right,
        CellPoint::BottomRight => bottom_right,
        _ => bottom_left,
    }
}

/// On an edge that the contour crosses, the fraction lies in `[0, 1]`, with
/// or without interpolation. It is positive when the edge starts outside and
/// less than one when the edge ends outside.
pub proof fn lemma_crossed_edge_fraction(
    edge: CellPoint,
    top_left: int,
    top_right: int,
    bottom_right: int,
    bottom_left: int,
    lerped: bool,
)
    requires
        edge.is_edge(),
        point_in_case(case_index(top_left, top_right, bottom_right, bottom_left), edge),
    ensures
        ({
            let fraction = edge_ratios(top_left, top_right, bottom_right, bottom_left, lerped).of(
                edge,
            );
            let first = corner_sample(
                edge_ends(edge).0,
                top_left,
                top_right,
                bottom_right,
                bottom_left,
            );
            let second = corner_sample(
                edge_ends(edge).1,
                top_left,
                top_right,
                bottom_right,
                bottom_left,
            );
            &&& is_inside(first) != is_inside(second)
            &&& fraction.in_unit_interval()
            &&& !is_inside(first) ==> 0 < fraction.num
            &&& !is_inside(second) ==> fraction.num < fraction.den
        }),
{
    lemma_case_index_bits(top_left, top_right, bottom_right, bottom_left);
    let first = corner_sample(edge_ends(edge).0, top_left, top_right, bottom_right, bottom_left);
    let second = corner_sample(edge_ends(edge).1, top_left, top_right, bottom_right, bottom_left);
    assert(is_inside(first) != is_inside(second));
    if lerped {
        lemma_lerp_ratio_crossing(first, second, ISOVALUE as int);
    }
}

/// With interpolation on, an edge whose two corners hold the same sample
/// has the fraction zero: its crossing point is placed on the corner at
/// which the edge starts.
pub proof fn lemma_degenerate_edge_fraction(
    edge: CellPoint,
    top_left: int,
    top_right: int,
    bottom_right: int,
    bottom_left: int,
)
    requires
        edge.is_edge(),
        corner_sample(edge_ends(edge).0, top_left, top_right, bottom_right, bottom_left)
            == corner_sample(edge_ends(edge).1, top_left, top_right, bottom_right, bottom_left),
    ensures
        ({
            let fractions = edge_ratios(top_left, top_right, bottom_right, bottom_left, true);
            &&& fractions.of(edge) == Ratio::zero()
            &&& fractions.of(edge).value() == 0 as real
            &&& local_x(edge, fractions) == local_x(edge_ends(edge).0, fractions)
            &&& local_y(edge, fractions) == local_y(edge_ends(edge).0, fractions)
        }),
{
    lemma_zero_value();
}

/// Every point that a cell contributes lies within the cell: its local
/// place is between 0 and 1 in both directions.
pub proof fn lemma_template_points_within_cell(
    top_left: int,
    top_right: int,
    bottom_right: int,
    bottom_left: int,
    lerped: bool,
    polygon: int,
    point: int,
)
    requires
        0 <= polygon < case_polygons(
            case_index(top_left, top_right, bottom_right, bottom_left),
        ).len(),
        0 <= point < case_polygons(
            case_index(top_left, top_right, bottom_right, bottom_left),
        )[polygon].len(),
    ensures
        ({
            let fractions = edge_ratios(top_left, top_right, bottom_right, bottom_left, lerped);
            let p = case_polygons(
                case_index(top_left, top_right, bottom_right, bottom_left),
            )[polygon][point];
            &&& 0 as real <= local_x(p, fractions) <= 1 as real
            &&& 0 as real <= local_y(p, fractions) <= 1 as real
        }),
{
    let case = case_index(top_left, top_right, bottom_right, bottom_left);
    let fractions = edge_ratios(top_left, top_right, bottom_right, bottom_left, lerped);
    let p = case_polygons(case)[polygon][point];
    lemma_case_index_range(top_left, top_right, bottom_right, bottom_left);
    lemma_template_points_in_case(case, polygon, point);
    if p.is_edge() {
        lemma_crossed_edge_fraction(p, top_left, top_right, bottom_right, bottom_left, lerped);
        lemma_unit_interval_value(fractions.of(p));
    }
}

/// In a saddle cell the two corner triangles have no vertex in common: no
/// vertex of the first lies at the place of a vertex of the second.
pub proof fn lemma_saddle_triangles_apart(
    top_left: int,
    top_right: int,
    bottom_right: int,
    bottom_left: int,
    lerped: bool,
    col: int,
    row: int,
    size: int,
    first: int,
    second: int,
)
    requires
        size > 0,
        case_index(top_left, top_right, bottom_right, bottom_left) == 5 || case_index(
            top_left,
            top_right,
            bottom_right,
            bottom_left,
        ) == 10,
        0 <= first < 3,
        0 <= second < 3,
    ensures
        ({
            let fractions = edge_ratios(top_left, top_right, bottom_right, bottom_left, lerped);
            let polygons = case_polygons(
                case_index(top_left, top_right, bottom_right, bottom_left),
            );
            let a = point_at(polygons[0][first], col, row, size, fractions);
            let b = point_at(polygons[1][second], col, row, size, fractions);
            &&& polygons.len() == 2
            &&& polygons[0].len() == 3
            &&& polygons[1].len() == 3
            &&& !a.same_place(b)
        }),
{
    let case = case_index(top_left, top_right, bottom_right, bottom_left);
    let fractions = edge_ratios(top_left, top_right, bottom_right, bottom_left, lerped);
    let polygons = case_polygons(case);
    let p = polygons[0][first];
    let q = polygons[1][second];
    lemma_edge_ratios_proper(top_left, top_right, bottom_right, bottom_left, lerped);
    lemma_template_points_in_case(case, 0, first);
    lemma_template_points_in_case(case, 1, second);
    if p.is_edge() {
        lemma_crossed_edge_fraction(p, top_left, top_right, bottom_right, bottom_left, lerped);
        lemma_unit_interval_value(fractions.of(p));
    }
    if q.is_edge() {
        lemma_crossed_edge_fraction(q, top_left, top_right, bottom_right, bottom_left, lerped);
        lemma_unit_interval_value(fractions.of(q));
    }
    lemma_case_index_bits(top_left, top_right, bottom_right, bottom_left);
    assert(local_x(p, fractions) != local_x(q, fractions) || local_y(p, fractions) != local_y(
        q,
        fractions,
    ));
    lemma_point_at_value(p, col, row, size, fractions);
    lemma_point_at_value(q, col, row, size, fractions);
    lemma_scaling_separates(
        size as real,
        col as real,
        local_x(p, fractions),
        local_x(q, fractions),
    );
    lemma_scaling_separates(
        size as real,
        row as real,
        local_y(p, fractions),
        local_y(q, fractions),
    );
}

/// Two different local places stay different when they are moved and scaled
/// by a cell size that is not zero.
proof fn lemma_scaling_separates(s: real, o: real, u: real, v: real)
    by (nonlinear_arith)
    requires
        s != 0 as real,
    ensures
        u != v ==> s * (o + u) != s * (o + v),
{
}

/// The edge fractions of a cell always have positive denominators.
pub proof fn lemma_edge_ratios_proper(
    top_left: int,
    top_right: int,
    bottom_right: int,
    bottom_left: int,
    lerped: bool,
)
    ensures
        edge_ratios(top_left, top_right, bottom_right, bottom_left, lerped).is_proper(),
{
    lemma_lerp_ratio_proper(top_left, top_right, ISOVALUE as int);
    lemma_lerp_ratio_proper(top_right, bottom_right, ISOVALUE as int);
    lemma_lerp_ratio_proper(bottom_left, bottom_right, ISOVALUE as int);
    lemma_lerp_ratio_proper(top_left, bottom_left, ISOVALUE as int);
}

/// Scaling by a size that is not negative keeps the order of two places.
proof fn lemma_scaling_keeps_order(s: real, o: real, u: real, v: real)
    by (nonlinear_arith)
    requires
        s >= 0 as real,
        u <= v,
    ensures
        s * (o + u) <= s * (o + v),
{
}

/// Every vertex that a cell contributes lies within the square of the cell:
/// between its top-left and its bottom-right corner, along `x` and along `y`.
pub proof fn lemma_cell_points_in_cell(
    top_left: int,
    top_right: int,
    bottom_right: int,
    bottom_left: int,
    lerped: bool,
    col: int,
    row: int,
    size: int,
    polygon: int,
    point: int,
)
    requires
        size >= 0,
        0 <= polygon < case_polygons(
            case_index(top_left, top_right, bottom_right, bottom_left),
        ).len(),
        0 <= point < case_polygons(
            case_index(top_left, top_right, bottom_right, bottom_left),
        )[polygon].len(),
    ensures
        ({
            let fractions = edge_ratios(top_left, top_right, bottom_right, bottom_left, lerped);
            let p = point_at(
                case_polygons(
                    case_index(top_left, top_right, bottom_right, bottom_left),
                )[polygon][point],
                col,
                row,
                size,
                fractions,
            );
            let low = point_at(CellPoint::TopLeft, col, row, size, fractions);
            let high = point_at(CellPoint::BottomRight, col, row, size, fractions);
            &&& low.x.value() <= p.x.value() <= high.x.value()
            &&& low.y.value() <= p.y.value() <= high.y.value()
        }),
{
    let fractions = edge_ratios(top_left, top_right, bottom_right, bottom_left, lerped);
    let q = case_polygons(
        case_index(top_left, top_right, bottom_right, bottom_left),
    )[polygon][point];
    lemma_edge_ratios_proper(top_left, top_right, bottom_right, bottom_left, lerped);
    lemma_template_points_within_cell(
        top_left,
        top_right,
        bottom_right,
        bottom_left,
        lerped,
        polygon,
        point,
    );
    lemma_point_at_value(q, col, row, size, fractions);
    lemma_point_at_value(CellPoint::TopLeft, col, row, size, fractions);
    lemma_point_at_value(CellPoint::BottomRight, col, row, size, fractions);
    let s = size as real;
    let ox = col as real;
    let oy = row as real;
    lemma_scaling_keeps_order(s, ox, 0 as real, local_x(q, fractions));
    lemma_scaling_keeps_order(s, ox, local_x(q, fractions), 1 as real);
    lemma_scaling_keeps_order(s, oy, 0 as real, local_y(q, fractions));
    lemma_scaling_keeps_order(s, oy, local_y(q, fractions), 1 as real);
}

/// The place of the lattice vertex `(row, col)`: `col` and `row` cells on
/// from the start of the domain, in the plane `z = 0`.
pub open spec fn lattice_point(col: int, row: int, size: int) -> Point {
    Point {
        x: Ratio { num: col * size + domain_start(), den: 1 },
        y: Ratio { num: row * size + domain_start(), den: 1 },
        z: Ratio::zero(),
    }
}

/// The four corners of the cell `(row, col)` are the lattice vertices
/// `(row, col)`, `(row, col + 1)`, `(row + 1, col + 1)` and `(row + 1, col)`,
/// whatever the edge fractions are.
pub proof fn lemma_corner_positions(col: int, row: int, size: int, fractions: EdgeRatios)
    ensures
        point_at(CellPoint::TopLeft, col, row, size, fractions) == lattice_point(col, row, size),
        point_at(CellPoint::TopRight, col, row, size, fractions) == lattice_point(
            col + 1,
            row,
            size,
        ),
        point_at(CellPoint::BottomRight, col, row, size, fractions) == lattice_point(
            col + 1,
            row + 1,
            size,
        ),
        point_at(CellPoint::BottomLeft, col, row, size, fractions) == lattice_point(
            col,
            row + 1,
            size,
        ),
{
    lemma_lattice_line(col, size);
    lemma_lattice_line(col + 1, size);
    lemma_lattice_line(row, size);
    lemma_lattice_line(row + 1, size);
}

/// Lattice line number `index` lies `index` cells on from the start of the
/// domain.
proof fn lemma_lattice_line(index: int, size: int)
    ensures
        coordinate(index, size, Ratio::zero()) == (Ratio {
            num: index * size + domain_start(),
            den: 1,
        }),
{
    assert(size * (index * 1 + 0) == index * size) by (nonlinear_arith);
}

} // verus!

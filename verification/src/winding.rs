//! The winding of the triangles: every triangle of every mesh runs
//! counter-clockwise, and so faces the normal of its vertices.
//!
//! The points of a cell that a case uses all lie on the boundary of the
//! cell. A template lists them in the order in which one round of the
//! boundary meets them, and three points of the boundary of a square, taken
//! in that order, never turn clockwise.

use crate::cell::case_index;
use crate::cell::edge_ratios;
use crate::cell::lemma_case_index_range;
use crate::cell::point_at;
use crate::cell::CellPoint;
use crate::cell::EdgeRatios;
use crate::cell::Point;
use crate::geometry::lemma_crossed_edge_fraction;
use crate::geometry::lemma_edge_ratios_proper;
use crate::geometry::lemma_point_at_value;
use crate::geometry::lemma_unit_interval_value;
use crate::geometry::local_x;
use crate::geometry::local_y;
use crate::grid::cell_cols;
use crate::grid::domain_start;
use crate::grid::cell_rows;
use crate::mesh::fan_indices;
use crate::ratio::lemma_half_value;
use crate::mesh::lemma_fan_indices;
use crate::mesh::lemma_push_polygon;
use crate::mesh::MeshModel;
use crate::template::case_polygons;
use crate::template::fan_triangles;
use crate::template::lemma_template_points_in_case;
use crate::template::point_in_case;
use crate::tessellate::cell_case_at;
use crate::tessellate::cell_points;
use crate::tessellate::cells_prefix;
use crate::tessellate::lemma_cells_prefix;
use crate::tessellate::tessellation;
use vstd::prelude::*;

verus! {

/// Twice the signed area of the triangle `a`, `b`, `c` in the plane of `x`
/// and `y`. It is positive when the three points run counter-clockwise as
/// seen with `x` to the right and `y` upwards, that is when the triangle
/// faces the normal `(0, 0, 1)`; it is zero when the triangle is flat.
pub open spec fn turn(a: Point, b: Point, c: Point) -> real {
    (b.x.value() - a.x.value()) * (c.y.value() - a.y.value()) - (b.y.value() - a.y.value()) * (
    c.x.value() - a.x.value())
}

/// How far along the boundary of its cell a point lies, on the way from the
/// top-left corner over the top-right, the bottom-right and the bottom-left
/// corner and back. Each side of the cell counts as 1.
pub open spec fn boundary_place(point: CellPoint, fractions: EdgeRatios) -> real {
    match point {
        CellPoint::TopLeft => 0 as real,
        CellPoint::TopEdge => fractions.top.value(),
        CellPoint::TopRight => 1 as real,
        CellPoint::RightEdge => 1 as real + fractions.right.value(),
        CellPoint::BottomRight => 2 as real,
        CellPoint::BottomEdge => 3 as real - fractions.bottom.value(),
        CellPoint::BottomLeft => 3 as real,
        CellPoint::LeftEdge => 4 as real - fractions.left.value(),
    }
}

/// The point of the unit square's boundary that lies `place` along it.
spec fn on_boundary(place: real, x: real, y: real) -> bool {
    ||| 0 as real <= place <= 1 as real && x == place && y == 0 as real
    ||| 1 as real <= place <= 2 as real && x == 1 as real && y == place - 1 as real
    ||| 2 as real <= place <= 3 as real && x == 3 as real - place && y == 1 as real
    ||| 3 as real <= place <= 4 as real && x == 0 as real && y == 4 as real - place
}

/// Three places are met in this order on one round of the boundary.
spec fn in_cyclic_order(a: real, b: real, c: real) -> bool {
    (a <= b && b <= c) || (b <= c && c <= a) || (c <= a && a <= b)
}

/// Three points met in this order on one round of the unit square's
/// boundary make a triangle that does not turn clockwise.
proof fn lemma_boundary_turn(
    pa: real,
    ax: real,
    ay: real,
    pb: real,
    bx: real,
    by: real,
    pc: real,
    cx: real,
    cy: real,
)
    by (nonlinear_arith)
    requires
        on_boundary(pa, ax, ay),
        on_boundary(pb, bx, by),
        on_boundary(pc, cx, cy),
        pa <= pb,
        pb <= pc,
    ensures
        (bx - ax) * (cy - ay) - (by - ay) * (cx - ax) >= 0 as real,
{
}

/// The turn of a triangle is the same whichever of its points comes first.
proof fn lemma_turn_rotates(
    ax: real,
    ay: real,
    bx: real,
    by: real,
    cx: real,
    cy: real,
)
    by (nonlinear_arith)
    ensures
        (bx - ax) * (cy - ay) - (by - ay) * (cx - ax) == (cx - bx) * (ay - by) - (cy - by) * (ax
            - bx),
        (bx - ax) * (cy - ay) - (by - ay) * (cx - ax) == (ax - cx) * (by - cy) - (ay - cy) * (bx
            - cx),
{
}

/// The difference of two scaled places is the scaled difference.
proof fn lemma_scaled_difference(s: real, o: real, u: real, v: real)
    by (nonlinear_arith)
    ensures
        s * (o + u) - s * (o + v) == s * (u - v),
{
}

/// A common factor can be taken out of a difference.
proof fn lemma_common_factor(k: real, p: real, q: real)
    by (nonlinear_arith)
    ensures
        k * p - k * q == k * (p - q),
{
}

/// A square times a number that is not negative is not negative.
proof fn lemma_square_keeps_sign(s: real, t: real)
    by (nonlinear_arith)
    requires
        t >= 0 as real,
    ensures
        (s * s) * t >= 0 as real,
{
}

/// The product of two differences that are scaled by `s` is the product of
/// the differences, scaled twice.
proof fn lemma_scaled_product(du: real, dv: real, s: real, u: real, v: real)
    by (nonlinear_arith)
    requires
        du == s * u,
        dv == s * v,
    ensures
        du * dv == (s * s) * (u * v),
{
}

/// A square that is not zero times a positive number is positive.
proof fn lemma_square_keeps_strict_sign(s: real, t: real)
    by (nonlinear_arith)
    requires
        s != 0 as real,
        t > 0 as real,
    ensures
        (s * s) * t > 0 as real,
{
}

/// Scaling a triangle by `s` and moving it multiplies its turn by `s * s`.
/// The triangle has the corners `(ax, ay)`, `(bx, by)`, `(cx, cy)`; scaled
/// and moved they lie at `(wax, way)`, `(wbx, wby)`, `(wcx, wcy)`.
proof fn lemma_turn_scales(
    s: real,
    ox: real,
    oy: real,
    shift: real,
    ax: real,
    ay: real,
    bx: real,
    by: real,
    cx: real,
    cy: real,
    wax: real,
    way: real,
    wbx: real,
    wby: real,
    wcx: real,
    wcy: real,
)
    requires
        wax == s * (ox + ax) + shift,
        way == s * (oy + ay) + shift,
        wbx == s * (ox + bx) + shift,
        wby == s * (oy + by) + shift,
        wcx == s * (ox + cx) + shift,
        wcy == s * (oy + cy) + shift,
    ensures
        (wbx - wax) * (wcy - way) - (wby - way) * (wcx - wax) == (s * s) * ((bx - ax) * (cy - ay)
            - (by - ay) * (cx - ax)),
{
    let u = bx - ax;
    let v = cy - ay;
    let w = by - ay;
    let z = cx - ax;
    lemma_scaled_difference(s, ox, bx, ax);
    lemma_scaled_difference(s, oy, cy, ay);
    lemma_scaled_difference(s, oy, by, ay);
    lemma_scaled_difference(s, ox, cx, ax);
    lemma_scaled_product(wbx - wax, wcy - way, s, u, v);
    lemma_scaled_product(wby - way, wcx - wax, s, w, z);
    lemma_common_factor(s * s, u * v, w * z);
}

/// A point whose edge fraction lies between 0 and 1 lies on the boundary of
/// its cell, at its boundary place.
proof fn lemma_point_on_boundary(point: CellPoint, fractions: EdgeRatios)
    requires
        point.is_edge() ==> 0 as real <= fractions.of(point).value() <= 1 as real,
    ensures
        on_boundary(
            boundary_place(point, fractions),
            local_x(point, fractions),
            local_y(point, fractions),
        ),
{
}

/// The points of every polygon of a template are met in their order on one
/// round of the cell's boundary: each triangle of the polygon's fan has its
/// three points in cyclic order.
proof fn lemma_template_in_boundary_order(
    case: int,
    fractions: EdgeRatios,
    polygon: int,
    k: int,
)
    requires
        0 <= case <= 15,
        0 <= polygon < case_polygons(case).len(),
        1 <= k,
        k + 1 < case_polygons(case)[polygon].len(),
        point_in_case(case, CellPoint::TopEdge) ==> 0 as real <= fractions.top.value()
            <= 1 as real,
        point_in_case(case, CellPoint::RightEdge) ==> 0 as real <= fractions.right.value()
            <= 1 as real,
        point_in_case(case, CellPoint::BottomEdge) ==> 0 as real <= fractions.bottom.value()
            <= 1 as real,
        point_in_case(case, CellPoint::LeftEdge) ==> 0 as real <= fractions.left.value()
            <= 1 as real,
    ensures
        in_cyclic_order(
            boundary_place(case_polygons(case)[polygon][0], fractions),
            boundary_place(case_polygons(case)[polygon][k], fractions),
            boundary_place(case_polygons(case)[polygon][k + 1], fractions),
        ),
{
}

/// Three points met in cyclic order on the boundary of the unit square make
/// a triangle that does not turn clockwise.
proof fn lemma_cyclic_turn(
    pa: real,
    ax: real,
    ay: real,
    pb: real,
    bx: real,
    by: real,
    pc: real,
    cx: real,
    cy: real,
)
    requires
        on_boundary(pa, ax, ay),
        on_boundary(pb, bx, by),
        on_boundary(pc, cx, cy),
        in_cyclic_order(pa, pb, pc),
    ensures
        (bx - ax) * (cy - ay) - (by - ay) * (cx - ax) >= 0 as real,
{
    lemma_turn_rotates(ax, ay, bx, by, cx, cy);
    if pa <= pb && pb <= pc {
        lemma_boundary_turn(pa, ax, ay, pb, bx, by, pc, cx, cy);
    } else if pb <= pc && pc <= pa {
        lemma_boundary_turn(pb, bx, by, pc, cx, cy, pa, ax, ay);
    } else {
        lemma_boundary_turn(pc, cx, cy, pa, ax, ay, pb, bx, by);
    }
}

/// On an edge that the contour crosses, the value of the fraction lies
/// between 0 and 1.
proof fn lemma_edge_in_unit_interval(
    edge: CellPoint,
    top_left: int,
    top_right: int,
    bottom_right: int,
    bottom_left: int,
    lerped: bool,
)
    requires
        edge.is_edge(),
    ensures
        point_in_case(case_index(top_left, top_right, bottom_right, bottom_left), edge)
            ==> 0 as real <= edge_ratios(
            top_left,
            top_right,
            bottom_right,
            bottom_left,
            lerped,
        ).of(edge).value() <= 1 as real,
{
    if point_in_case(case_index(top_left, top_right, bottom_right, bottom_left), edge) {
        lemma_crossed_edge_fraction(edge, top_left, top_right, bottom_right, bottom_left, lerped);
        lemma_unit_interval_value(
            edge_ratios(top_left, top_right, bottom_right, bottom_left, lerped).of(edge),
        );
    }
}

/// Twice the signed area of the triangle of three points of a cell, in
/// local places: the cell's side counts as 1.
pub open spec fn local_turn(a: CellPoint, b: CellPoint, c: CellPoint, fractions: EdgeRatios) -> real {
    (local_x(b, fractions) - local_x(a, fractions)) * (local_y(c, fractions) - local_y(
        a,
        fractions,
    )) - (local_y(b, fractions) - local_y(a, fractions)) * (local_x(c, fractions) - local_x(
        a,
        fractions,
    ))
}

/// In local places, every triangle of a template runs counter-clockwise or
/// is flat.
proof fn lemma_local_turn(
    top_left: int,
    top_right: int,
    bottom_right: int,
    bottom_left: int,
    lerped: bool,
    polygon: int,
    k: int,
)
    requires
        0 <= polygon < case_polygons(
            case_index(top_left, top_right, bottom_right, bottom_left),
        ).len(),
        1 <= k,
        k + 1 < case_polygons(
            case_index(top_left, top_right, bottom_right, bottom_left),
        )[polygon].len(),
    ensures
        ({
            let fractions = edge_ratios(top_left, top_right, bottom_right, bottom_left, lerped);
            let points = case_polygons(
                case_index(top_left, top_right, bottom_right, bottom_left),
            )[polygon];
            local_turn(points[0], points[k], points[k + 1], fractions) >= 0 as real
        }),
{
    let case = case_index(top_left, top_right, bottom_right, bottom_left);
    let fractions = edge_ratios(top_left, top_right, bottom_right, bottom_left, lerped);
    let points = case_polygons(case)[polygon];
    lemma_case_index_range(top_left, top_right, bottom_right, bottom_left);
    lemma_edge_in_unit_interval(
        CellPoint::TopEdge,
        top_left,
        top_right,
        bottom_right,
        bottom_left,
        lerped,
    );
    lemma_edge_in_unit_interval(
        CellPoint::RightEdge,
        top_left,
        top_right,
        bottom_right,
        bottom_left,
        lerped,
    );
    lemma_edge_in_unit_interval(
        CellPoint::BottomEdge,
        top_left,
        top_right,
        bottom_right,
        bottom_left,
        lerped,
    );
    lemma_edge_in_unit_interval(
        CellPoint::LeftEdge,
        top_left,
        top_right,
        bottom_right,
        bottom_left,
        lerped,
    );
    lemma_template_points_in_case(case, polygon, 0);
    lemma_template_points_in_case(case, polygon, k);
    lemma_template_points_in_case(case, polygon, k + 1);
    let a = points[0];
    let b = points[k];
    let c = points[k + 1];
    lemma_template_in_boundary_order(case, fractions, polygon, k);
    lemma_point_on_boundary(a, fractions);
    lemma_point_on_boundary(b, fractions);
    lemma_point_on_boundary(c, fractions);
    lemma_cyclic_turn(
        boundary_place(a, fractions),
        local_x(a, fractions),
        local_y(a, fractions),
        boundary_place(b, fractions),
        local_x(b, fractions),
        local_y(b, fractions),
        boundary_place(c, fractions),
        local_x(c, fractions),
        local_y(c, fractions),
    );
}

/// The turn of a triangle in world space is its turn in local places times
/// the square of the cell size.
proof fn lemma_world_turn(
    a: CellPoint,
    b: CellPoint,
    c: CellPoint,
    col: int,
    row: int,
    size: int,
    fractions: EdgeRatios,
)
    requires
        fractions.is_proper(),
    ensures
        turn(
            point_at(a, col, row, size, fractions),
            point_at(b, col, row, size, fractions),
            point_at(c, col, row, size, fractions),
        ) == (size as real * size as real) * local_turn(a, b, c, fractions),
{
    lemma_point_at_value(a, col, row, size, fractions);
    lemma_point_at_value(b, col, row, size, fractions);
    lemma_point_at_value(c, col, row, size, fractions);
    let pa = point_at(a, col, row, size, fractions);
    let pb = point_at(b, col, row, size, fractions);
    let pc = point_at(c, col, row, size, fractions);
    lemma_turn_scales(
        size as real,
        col as real,
        row as real,
        domain_start() as real,
        local_x(a, fractions),
        local_y(a, fractions),
        local_x(b, fractions),
        local_y(b, fractions),
        local_x(c, fractions),
        local_y(c, fractions),
        pa.x.value(),
        pa.y.value(),
        pb.x.value(),
        pb.y.value(),
        pc.x.value(),
        pc.y.value(),
    );
}

/// Twice the local `x` of a point when every edge is crossed in the middle.
spec fn doubled_x(point: CellPoint) -> int {
    match point {
        CellPoint::TopLeft | CellPoint::BottomLeft | CellPoint::LeftEdge => 0,
        CellPoint::TopRight | CellPoint::BottomRight | CellPoint::RightEdge => 2,
        CellPoint::TopEdge | CellPoint::BottomEdge => 1,
    }
}

/// Twice the local `y` of a point when every edge is crossed in the middle.
spec fn doubled_y(point: CellPoint) -> int {
    match point {
        CellPoint::TopLeft | CellPoint::TopRight | CellPoint::TopEdge => 0,
        CellPoint::BottomLeft | CellPoint::BottomRight | CellPoint::BottomEdge => 2,
        CellPoint::RightEdge | CellPoint::LeftEdge => 1,
    }
}

/// The product of a number from -2 to 2 and another number.
spec fn small_multiple(u: int, v: int) -> int {
    if u == 0 {
        0
    } else if u == 1 {
        v
    } else if u == -1 {
        -v
    } else if u == 2 {
        2 * v
    } else {
        -2 * v
    }
}

/// Four times the turn of a triangle when every edge is crossed in the
/// middle.
spec fn doubled_turn(a: CellPoint, b: CellPoint, c: CellPoint) -> int {
    small_multiple(doubled_x(b) - doubled_x(a), doubled_y(c) - doubled_y(a)) - small_multiple(
        doubled_y(b) - doubled_y(a),
        doubled_x(c) - doubled_x(a),
    )
}

/// With every edge crossed in the middle, every triangle of a template has
/// a positive turn.
proof fn lemma_doubled_turn(case: int, polygon: int, k: int)
    requires
        0 <= case <= 15,
        0 <= polygon < case_polygons(case).len(),
        1 <= k,
        k + 1 < case_polygons(case)[polygon].len(),
    ensures
        doubled_turn(
            case_polygons(case)[polygon][0],
            case_polygons(case)[polygon][k],
            case_polygons(case)[polygon][k + 1],
        ) > 0,
{
}

/// The turn of a triangle from its doubled coordinates.
proof fn lemma_turn_from_doubled(
    ax: real,
    ay: real,
    bx: real,
    by: real,
    cx: real,
    cy: real,
    u: int,
    v: int,
    w: int,
    z: int,
    d: int,
)
    by (nonlinear_arith)
    requires
        2 as real * (bx - ax) == u as real,
        2 as real * (cy - ay) == v as real,
        2 as real * (by - ay) == w as real,
        2 as real * (cx - ax) == z as real,
        -2 <= u <= 2,
        -2 <= w <= 2,
        d == small_multiple(u, v) - small_multiple(w, z),
        d > 0,
    ensures
        (bx - ax) * (cy - ay) - (by - ay) * (cx - ax) > 0 as real,
{
}

/// Without interpolation every triangle of a template runs strictly
/// counter-clockwise in local places: none is flat.
proof fn lemma_local_turn_of_midpoints(
    top_left: int,
    top_right: int,
    bottom_right: int,
    bottom_left: int,
    polygon: int,
    k: int,
)
    requires
        0 <= polygon < case_polygons(
            case_index(top_left, top_right, bottom_right, bottom_left),
        ).len(),
        1 <= k,
        k + 1 < case_polygons(
            case_index(top_left, top_right, bottom_right, bottom_left),
        )[polygon].len(),
    ensures
        ({
            let fractions = edge_ratios(top_left, top_right, bottom_right, bottom_left, false);
            let points = case_polygons(
                case_index(top_left, top_right, bottom_right, bottom_left),
            )[polygon];
            local_turn(points[0], points[k], points[k + 1], fractions) > 0 as real
        }),
{
    let case = case_index(top_left, top_right, bottom_right, bottom_left);
    let fractions = edge_ratios(top_left, top_right, bottom_right, bottom_left, false);
    let points = case_polygons(case)[polygon];
    let a = points[0];
    let b = points[k];
    let c = points[k + 1];
    lemma_case_index_range(top_left, top_right, bottom_right, bottom_left);
    lemma_doubled_turn(case, polygon, k);
    lemma_half_value();
    lemma_doubled_place(a, fractions);
    lemma_doubled_place(b, fractions);
    lemma_doubled_place(c, fractions);
    lemma_turn_from_doubled(
        local_x(a, fractions),
        local_y(a, fractions),
        local_x(b, fractions),
        local_y(b, fractions),
        local_x(c, fractions),
        local_y(c, fractions),
        doubled_x(b) - doubled_x(a),
        doubled_y(c) - doubled_y(a),
        doubled_y(b) - doubled_y(a),
        doubled_x(c) - doubled_x(a),
        doubled_turn(a, b, c),
    );
}

/// With every fraction one half, the doubled coordinates are twice the
/// local place.
proof fn lemma_doubled_place(point: CellPoint, fractions: EdgeRatios)
    requires
        fractions.top.value() * 2 as real == 1 as real,
        fractions.right.value() * 2 as real == 1 as real,
        fractions.bottom.value() * 2 as real == 1 as real,
        fractions.left.value() * 2 as real == 1 as real,
    ensures
        2 as real * local_x(point, fractions) == doubled_x(point) as real,
        2 as real * local_y(point, fractions) == doubled_y(point) as real,
{
}

/// Every triangle that a cell contributes runs counter-clockwise, or is
/// flat: its turn is not negative, so that it faces the normal `(0, 0, 1)`.
/// The triangles of a polygon are those of its fan: the first point, and two
/// points that follow each other.
pub proof fn lemma_template_triangles_face_up(
    top_left: int,
    top_right: int,
    bottom_right: int,
    bottom_left: int,
    lerped: bool,
    col: int,
    row: int,
    size: int,
    polygon: int,
    k: int,
)
    requires
        0 <= polygon < case_polygons(
            case_index(top_left, top_right, bottom_right, bottom_left),
        ).len(),
        1 <= k,
        k + 1 < case_polygons(
            case_index(top_left, top_right, bottom_right, bottom_left),
        )[polygon].len(),
    ensures
        ({
            let fractions = edge_ratios(top_left, top_right, bottom_right, bottom_left, lerped);
            let points = case_polygons(
                case_index(top_left, top_right, bottom_right, bottom_left),
            )[polygon];
            turn(
                point_at(points[0], col, row, size, fractions),
                point_at(points[k], col, row, size, fractions),
                point_at(points[k + 1], col, row, size, fractions),
            ) >= 0 as real
        }),
{
    let fractions = edge_ratios(top_left, top_right, bottom_right, bottom_left, lerped);
    let points = case_polygons(
        case_index(top_left, top_right, bottom_right, bottom_left),
    )[polygon];
    lemma_local_turn(top_left, top_right, bottom_right, bottom_left, lerped, polygon, k);
    lemma_edge_ratios_proper(top_left, top_right, bottom_right, bottom_left, lerped);
    lemma_world_turn(points[0], points[k], points[k + 1], col, row, size, fractions);
    lemma_square_keeps_sign(size as real, local_turn(points[0], points[k], points[k + 1], fractions));
}

/// Without interpolation, and with a cell size that is not zero, every
/// triangle that a cell contributes runs strictly counter-clockwise: none is
/// flat.
pub proof fn lemma_template_triangles_strictly_counter_clockwise(
    top_left: int,
    top_right: int,
    bottom_right: int,
    bottom_left: int,
    col: int,
    row: int,
    size: int,
    polygon: int,
    k: int,
)
    requires
        size != 0,
        0 <= polygon < case_polygons(
            case_index(top_left, top_right, bottom_right, bottom_left),
        ).len(),
        1 <= k,
        k + 1 < case_polygons(
            case_index(top_left, top_right, bottom_right, bottom_left),
        )[polygon].len(),
    ensures
        ({
            let fractions = edge_ratios(top_left, top_right, bottom_right, bottom_left, false);
            let points = case_polygons(
                case_index(top_left, top_right, bottom_right, bottom_left),
            )[polygon];
            turn(
                point_at(points[0], col, row, size, fractions),
                point_at(points[k], col, row, size, fractions),
                point_at(points[k + 1], col, row, size, fractions),
            ) > 0 as real
        }),
{
    let fractions = edge_ratios(top_left, top_right, bottom_right, bottom_left, false);
    let points = case_polygons(
        case_index(top_left, top_right, bottom_right, bottom_left),
    )[polygon];
    lemma_local_turn_of_midpoints(top_left, top_right, bottom_right, bottom_left, polygon, k);
    lemma_edge_ratios_proper(top_left, top_right, bottom_right, bottom_left, false);
    lemma_world_turn(points[0], points[k], points[k + 1], col, row, size, fractions);
    lemma_square_keeps_strict_sign(
        size as real,
        local_turn(points[0], points[k], points[k + 1], fractions),
    );
}

/// A turn that is not clockwise; when `strict`, one that is not flat either.
pub open spec fn turns_left(t: real, strict: bool) -> bool {
    if strict {
        t > 0 as real
    } else {
        t >= 0 as real
    }
}

impl MeshModel {
    /// The turn of triangle number `t`: twice its signed area.
    pub open spec fn triangle_turn(self, t: int) -> real {
        turn(
            self.positions[self.indices[3 * t]],
            self.positions[self.indices[3 * t + 1]],
            self.positions[self.indices[3 * t + 2]],
        )
    }

    /// Every triangle turns left; when `strict`, none is flat.
    pub open spec fn winds(self, strict: bool) -> bool {
        forall|t: int|
            0 <= t < self.triangles() ==> turns_left(#[trigger] self.triangle_turn(t), strict)
    }

    /// Every triangle runs counter-clockwise or is flat, so that none faces
    /// away from the normal `(0, 0, 1)`.
    pub open spec fn faces_up(self) -> bool {
        self.winds(false)
    }

    /// Every triangle runs counter-clockwise and has an area.
    pub open spec fn strictly_faces_up(self) -> bool {
        self.winds(true)
    }
}

/// The turn of triangle number `k` of the fan of a polygon, counted from 1:
/// the triangle of the first point and the points number `k` and `k + 1`.
pub open spec fn fan_turn(polygon: Seq<Point>, k: int) -> real {
    turn(polygon[0], polygon[k], polygon[k + 1])
}

/// Every triangle of the fan of a polygon turns left; when `strict`, none
/// is flat.
pub open spec fn polygon_winds(polygon: Seq<Point>, strict: bool) -> bool {
    forall|k: int|
        1 <= k && k + 1 < polygon.len() ==> turns_left(#[trigger] fan_turn(polygon, k), strict)
}

/// Triangle number `j` of a fan is made of the first vertex and the vertices
/// number `j + 1` and `j + 2`.
pub proof fn lemma_fan_triangle(base: int, points: nat, j: int)
    requires
        0 <= j < fan_triangles(points),
    ensures
        fan_indices(base, points).len() == 3 * fan_triangles(points),
        fan_indices(base, points)[3 * j] == base,
        fan_indices(base, points)[3 * j + 1] == base + j + 1,
        fan_indices(base, points)[3 * j + 2] == base + j + 2,
    decreases points,
{
    lemma_fan_indices(base, points);
    lemma_fan_indices(base, (points - 1) as nat);
    if j < fan_triangles((points - 1) as nat) {
        lemma_fan_triangle(base, (points - 1) as nat, j);
    }
}

/// Appending a polygon whose fan turns left to a mesh whose triangles turn
/// left gives a mesh whose triangles turn left.
pub proof fn lemma_push_polygon_winds(mesh: MeshModel, polygon: Seq<Point>, strict: bool)
    requires
        mesh.well_formed(),
        mesh.winds(strict),
        polygon_winds(polygon, strict),
    ensures
        mesh.push_polygon(polygon).winds(strict),
{
    let pushed = mesh.push_polygon(polygon);
    let base = mesh.positions.len() as int;
    let before = mesh.triangles();
    lemma_push_polygon(mesh, polygon);
    lemma_fan_indices(base, polygon.len());
    assert forall|t: int| 0 <= t < pushed.triangles() implies turns_left(
        #[trigger] pushed.triangle_turn(t),
        strict,
    ) by {
        if t < before {
            assert(turns_left(mesh.triangle_turn(t), strict));
            assert(pushed.indices[3 * t] == mesh.indices[3 * t]);
            assert(pushed.indices[3 * t + 1] == mesh.indices[3 * t + 1]);
            assert(pushed.indices[3 * t + 2] == mesh.indices[3 * t + 2]);
        } else {
            let j = t - before;
            lemma_fan_triangle(base, polygon.len(), j);
            assert(pushed.indices[3 * t] == fan_indices(base, polygon.len())[3 * j]);
            assert(pushed.indices[3 * t + 1] == fan_indices(base, polygon.len())[3 * j + 1]);
            assert(pushed.indices[3 * t + 2] == fan_indices(base, polygon.len())[3 * j + 2]);
            assert(pushed.positions[base] == polygon[0]);
            assert(pushed.positions[base + j + 1] == polygon[j + 1]);
            assert(pushed.positions[base + j + 2] == polygon[j + 2]);
            assert(turns_left(fan_turn(polygon, j + 1), strict));
        }
    }
}

/// Appending polygons whose fans turn left keeps the triangles of a mesh
/// turning left.
pub proof fn lemma_push_polygons_wind(
    mesh: MeshModel,
    polygons: Seq<Seq<Point>>,
    strict: bool,
)
    requires
        mesh.well_formed(),
        mesh.winds(strict),
        forall|i: int| 0 <= i < polygons.len() ==> polygon_winds(#[trigger] polygons[i], strict),
    ensures
        mesh.push_polygons(polygons).winds(strict),
        mesh.push_polygons(polygons).well_formed(),
    decreases polygons.len(),
{
    if polygons.len() > 0 {
        let earlier = mesh.push_polygons(polygons.drop_last());
        lemma_push_polygons_wind(mesh, polygons.drop_last(), strict);
        assert(polygon_winds(polygons[polygons.len() - 1], strict));
        lemma_push_polygon_winds(earlier, polygons.last(), strict);
        lemma_push_polygon(earlier, polygons.last());
    }
}

/// The polygons of every cell turn left. Without interpolation, and with a
/// cell size that is not zero, none of their triangles is flat.
pub proof fn lemma_cell_points_wind(
    samples: Seq<Seq<i32>>,
    row: int,
    col: int,
    size: int,
    lerped: bool,
    polygon: int,
    strict: bool,
)
    requires
        0 <= polygon < cell_points(samples, row, col, size, lerped).len(),
        strict ==> !lerped && size != 0,
    ensures
        polygon_winds(cell_points(samples, row, col, size, lerped)[polygon], strict),
{
    let top_left = samples[row][col] as int;
    let top_right = samples[row][col + 1] as int;
    let bottom_right = samples[row + 1][col + 1] as int;
    let bottom_left = samples[row + 1][col] as int;
    let fractions = edge_ratios(top_left, top_right, bottom_right, bottom_left, lerped);
    let points = cell_points(samples, row, col, size, lerped)[polygon];
    let template = case_polygons(cell_case_at(samples, row, col))[polygon];
    assert forall|k: int| 1 <= k && k + 1 < points.len() implies turns_left(
        #[trigger] fan_turn(points, k),
        strict,
    ) by {
        if strict {
            lemma_template_triangles_strictly_counter_clockwise(
                top_left,
                top_right,
                bottom_right,
                bottom_left,
                col,
                row,
                size,
                polygon,
                k,
            );
        } else {
            lemma_template_triangles_face_up(
                top_left,
                top_right,
                bottom_right,
                bottom_left,
                lerped,
                col,
                row,
                size,
                polygon,
                k,
            );
        }
        assert(points[0] == point_at(template[0], col, row, size, fractions));
        assert(points[k] == point_at(template[k], col, row, size, fractions));
        assert(points[k + 1] == point_at(template[k + 1], col, row, size, fractions));
    }
}

/// The triangles of the mesh of any number of cells turn left. Without
/// interpolation, and with a cell size that is not zero, none is flat.
pub proof fn lemma_cells_prefix_winds(
    samples: Seq<Seq<i32>>,
    size: int,
    lerped: bool,
    cells: nat,
    strict: bool,
)
    requires
        strict ==> !lerped && size != 0,
    ensures
        cells_prefix(samples, size, lerped, cells).winds(strict),
    decreases cells,
{
    if cells > 0 {
        let k = cells - 1;
        let cols = cell_cols(samples) as int;
        let earlier = cells_prefix(samples, size, lerped, k as nat);
        let points = cell_points(samples, k / cols, k % cols, size, lerped);
        lemma_cells_prefix_winds(samples, size, lerped, k as nat, strict);
        lemma_cells_prefix(samples, size, lerped, k as nat);
        assert forall|i: int| 0 <= i < points.len() implies polygon_winds(
            #[trigger] points[i],
            strict,
        ) by {
            lemma_cell_points_wind(samples, k / cols, k % cols, size, lerped, i, strict);
        }
        lemma_push_polygons_wind(earlier, points, strict);
    }
}

/// Every triangle of every mesh that the tessellator gives runs
/// counter-clockwise, as seen with `x` to the right and `y` upwards, or is
/// flat. So the winding is the same in all sixteen cases, and no triangle
/// faces away from the normal `(0, 0, 1)` of its vertices.
pub proof fn lemma_tessellation_faces_up(samples: Seq<Seq<i32>>, size: int, lerped: bool)
    ensures
        tessellation(samples, size, lerped).faces_up(),
{
    lemma_cells_prefix_winds(
        samples,
        size,
        lerped,
        cell_rows(samples) * cell_cols(samples),
        false,
    );
}

/// Without interpolation every triangle of every mesh that the tessellator
/// gives runs strictly counter-clockwise: every triangle has an area.
pub proof fn lemma_tessellation_strictly_counter_clockwise(samples: Seq<Seq<i32>>, size: int)
    ensures
        tessellation(samples, size, false).strictly_faces_up(),
{
    if size > 0 {
        lemma_cells_prefix_winds(
            samples,
            size,
            false,
            cell_rows(samples) * cell_cols(samples),
            true,
        );
    }
}

} // verus!

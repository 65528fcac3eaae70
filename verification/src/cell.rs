//! One cell of the grid: its case, its edge fractions, and the exact world
//! positions of the eight points from which its triangles are made.
//!
//! The corners of a cell are named by their place in the grid: "top" is the
//! row of samples with the smaller index, "left" the column with the smaller
//! index. World `x` grows with the column and world `y` with the row, and
//! the lattice vertex `(0, 0)` lies at the start of the domain.

use crate::grid::domain_start;
use crate::grid::DOMAIN_SIZE;
use crate::grid::ISOVALUE;
use crate::grid::SAMPLE_ONE;
use crate::ratio::inverse_lerp;
use crate::ratio::lerp_ratio;
use crate::ratio::Ratio;
use crate::ratio::Rational;
use vstd::prelude::*;

verus! {

/// A lattice vertex is inside the contour when its sample reaches the threshold.
pub open spec fn is_inside(sample: int) -> bool {
    sample >= ISOVALUE
}

/// The bit that a corner contributes to the case of a cell.
pub open spec fn corner_bit(sample: int) -> int {
    if is_inside(sample) {
        1
    } else {
        0
    }
}

/// The case of a cell: a number from 0 to 15 with one bit per corner.
pub open spec fn case_index(
    top_left: int,
    top_right: int,
    bottom_right: int,
    bottom_left: int,
) -> int {
    8 * corner_bit(top_left) + 4 * corner_bit(top_right) + 2 * corner_bit(bottom_right)
        + corner_bit(bottom_left)
}

/// The case of the cell with the given corner samples.
pub fn cell_case(top_left: i32, top_right: i32, bottom_right: i32, bottom_left: i32) -> (case: u8)
    ensures
        case == case_index(
            top_left as int,
            top_right as int,
            bottom_right as int,
            bottom_left as int,
        ),
        case <= 15,
{
    let mut case: u8 = 0;
    if top_left >= ISOVALUE {
        case = case + 8;
    }
    if top_right >= ISOVALUE {
        case = case + 4;
    }
    if bottom_right >= ISOVALUE {
        case = case + 2;
    }
    if bottom_left >= ISOVALUE {
        case = case + 1;
    }
    case
}

/// Every cell has exactly one case, and it is one of the sixteen.
pub proof fn lemma_case_index_range(
    top_left: int,
    top_right: int,
    bottom_right: int,
    bottom_left: int,
)
    ensures
        0 <= case_index(top_left, top_right, bottom_right, bottom_left) <= 15,
{
}

/// The case tells which corners are inside: each corner's bit can be read
/// back from it.
pub proof fn lemma_case_index_bits(
    top_left: int,
    top_right: int,
    bottom_right: int,
    bottom_left: int,
)
    ensures
        ({
            let case = case_index(top_left, top_right, bottom_right, bottom_left);
            &&& is_inside(top_left) <==> case / 8 % 2 == 1
            &&& is_inside(top_right) <==> case / 4 % 2 == 1
            &&& is_inside(bottom_right) <==> case / 2 % 2 == 1
            &&& is_inside(bottom_left) <==> case % 2 == 1
        }),
{
}

/// For a sample from `-0.5` up to, but not including, `1.5`, the corner bit
/// is the sample rounded to the nearest integer, a half rounding up: the
/// floor of the sample plus one half.
pub proof fn lemma_corner_bit_rounds_half_up(sample: int)
    requires
        -ISOVALUE <= sample < SAMPLE_ONE + ISOVALUE,
    ensures
        corner_bit(sample) == (sample + ISOVALUE) / (SAMPLE_ONE as int),
{
}

/// The four edge fractions of a cell, as mathematical quotients.
pub struct EdgeRatios {
    pub top: Ratio,
    pub right: Ratio,
    pub bottom: Ratio,
    pub left: Ratio,
}

/// The four edge fractions of a cell. `top` and `bottom` run from the left
/// corner to the right one, `left` and `right` from the top corner to the
/// bottom one.
#[derive(Clone, Copy, Debug, PartialEq, Eq)]
pub struct EdgeFractions {
    pub top: Rational,
    pub right: Rational,
    pub bottom: Rational,
    pub left: Rational,
}

impl View for EdgeFractions {
    type V = EdgeRatios;

    open spec fn view(&self) -> EdgeRatios {
        EdgeRatios {
            top: self.top@,
            right: self.right@,
            bottom: self.bottom@,
            left: self.left@,
        }
    }
}

/// A fraction small enough for a world coordinate to be computed from it:
/// both parts fit in 33 bits.
pub open spec fn is_edge_sized(ratio: Ratio) -> bool {
    &&& 0 < ratio.den <= 0x1_0000_0000
    &&& -0x1_0000_0000 <= ratio.num <= 0x1_0000_0000
}

impl EdgeRatios {
    /// All four fractions are edge sized.
    pub open spec fn is_edge_sized(self) -> bool {
        &&& is_edge_sized(self.top)
        &&& is_edge_sized(self.right)
        &&& is_edge_sized(self.bottom)
        &&& is_edge_sized(self.left)
    }
}

/// Where the contour crosses each edge of a cell: interpolated between the
/// two corner samples of the edge towards the threshold, or the middle of
/// every edge when `lerped` is off.
pub open spec fn edge_ratios(
    top_left: int,
    top_right: int,
    bottom_right: int,
    bottom_left: int,
    lerped: bool,
) -> EdgeRatios {
    if lerped {
        EdgeRatios {
            top: lerp_ratio(top_left, top_right, ISOVALUE as int),
            right: lerp_ratio(top_right, bottom_right, ISOVALUE as int),
            bottom: lerp_ratio(bottom_left, bottom_right, ISOVALUE as int),
            left: lerp_ratio(top_left, bottom_left, ISOVALUE as int),
        }
    } else {
        EdgeRatios {
            top: Ratio::half(),
            right: Ratio::half(),
            bottom: Ratio::half(),
            left: Ratio::half(),
        }
    }
}

/// The four edge fractions of the cell with the given corner samples.
pub fn edge_fractions(
    top_left: i32,
    top_right: i32,
    bottom_right: i32,
    bottom_left: i32,
    lerped: bool,
) -> (fractions: EdgeFractions)
    ensures
        fractions@ == edge_ratios(
            top_left as int,
            top_right as int,
            bottom_right as int,
            bottom_left as int,
            lerped,
        ),
        fractions@.is_edge_sized(),
        !lerped ==> fractions@.top == Ratio::half() && fractions@.right == Ratio::half()
            && fractions@.bottom == Ratio::half() && fractions@.left == Ratio::half(),
{
    if lerped {
        EdgeFractions {
            top: inverse_lerp(top_left, top_right, ISOVALUE),
            right: inverse_lerp(top_right, bottom_right, ISOVALUE),
            bottom: inverse_lerp(bottom_left, bottom_right, ISOVALUE),
            left: inverse_lerp(top_left, bottom_left, ISOVALUE),
        }
    } else {
        EdgeFractions {
            top: Rational::half(),
            right: Rational::half(),
            bottom: Rational::half(),
            left: Rational::half(),
        }
    }
}

/// One of the eight points of a cell that a triangle can have as a vertex:
/// the four corners, and the crossing point on each of the four edges.
#[derive(Clone, Copy, Debug, PartialEq, Eq)]
pub enum CellPoint {
    TopLeft,
    TopRight,
    BottomRight,
    BottomLeft,
    TopEdge,
    RightEdge,
    BottomEdge,
    LeftEdge,
}

impl CellPoint {
    /// The point is a corner of the cell.
    pub open spec fn is_corner(self) -> bool {
        self is TopLeft || self is TopRight || self is BottomRight || self is BottomLeft
    }

    /// The point is the crossing point of an edge.
    pub open spec fn is_edge(self) -> bool {
        !self.is_corner()
    }
}

/// The two corners between which an edge runs, in the direction in which its
/// fraction is measured. A corner is its own two ends.
pub open spec fn edge_ends(point: CellPoint) -> (CellPoint, CellPoint) {
    match point {
        CellPoint::TopEdge => (CellPoint::TopLeft, CellPoint::TopRight),
        CellPoint::RightEdge => (CellPoint::TopRight, CellPoint::BottomRight),
        CellPoint::BottomEdge => (CellPoint::BottomLeft, CellPoint::BottomRight),
        CellPoint::LeftEdge => (CellPoint::TopLeft, CellPoint::BottomLeft),
        _ => (point, point),
    }
}

/// The world coordinate `size * (index + offset) + domain_start()`: the
/// lattice line number `index`, moved on by the fraction `offset` of a cell of
/// side `size`. Lattice line 0 lies at the start of the domain.
pub open spec fn coordinate(index: int, size: int, offset: Ratio) -> Ratio {
    Ratio {
        num: size * (index * offset.den + offset.num) + domain_start() * offset.den,
        den: offset.den,
    }
}

/// A point in world space, as three mathematical quotients.
pub struct Point {
    pub x: Ratio,
    pub y: Ratio,
    pub z: Ratio,
}

/// A point in world space with exact rational coordinates.
#[derive(Clone, Copy, Debug, PartialEq, Eq)]
pub struct Position {
    pub x: Rational,
    pub y: Rational,
    pub z: Rational,
}

impl View for Position {
    type V = Point;

    open spec fn view(&self) -> Point {
        Point { x: self.x@, y: self.y@, z: self.z@ }
    }
}

/// The world position of a point of the cell `(row, col)`, whose top-left
/// corner is the lattice vertex `(row, col)`. A corner lies on two lattice
/// lines; a crossing point lies on one, and its edge fraction carries it
/// along the other. Every point has `z = 0`.
pub open spec fn point_at(
    point: CellPoint,
    col: int,
    row: int,
    size: int,
    fractions: EdgeRatios,
) -> Point {
    let zero = Ratio::zero();
    let left_x = coordinate(col, size, zero);
    let right_x = coordinate(col + 1, size, zero);
    let top_y = coordinate(row, size, zero);
    let bottom_y = coordinate(row + 1, size, zero);
    match point {
        CellPoint::TopLeft => Point { x: left_x, y: top_y, z: zero },
        CellPoint::TopRight => Point { x: right_x, y: top_y, z: zero },
        CellPoint::BottomRight => Point { x: right_x, y: bottom_y, z: zero },
        CellPoint::BottomLeft => Point { x: left_x, y: bottom_y, z: zero },
        CellPoint::TopEdge => Point { x: coordinate(col, size, fractions.top), y: top_y, z: zero },
        CellPoint::RightEdge => Point {
            x: right_x,
            y: coordinate(row, size, fractions.right),
            z: zero,
        },
        CellPoint::BottomEdge => Point {
            x: coordinate(col, size, fractions.bottom),
            y: bottom_y,
            z: zero,
        },
        CellPoint::LeftEdge => Point { x: left_x, y: coordinate(row, size, fractions.left), z: zero },
    }
}

/// The world coordinate of the lattice line number `index`, moved on by the
/// fraction `offset` of a cell of side `square_size`.
pub fn world_coordinate(index: u32, square_size: u32, offset: &Rational) -> (r: Rational)
    requires
        is_edge_sized(offset@),
    ensures
        r@ == coordinate(index as int, square_size as int, offset@),
        r@.is_proper(),
{
    let index_wide: i128 = index as i128;
    let size_wide: i128 = square_size as i128;
    assert(0 <= index_wide * offset.den <= 0x1_0000_0000_0000_0000) by (nonlinear_arith)
        requires
            0 <= index_wide <= 0x1_0000_0000,
            0 < offset.den <= 0x1_0000_0000,
    ;
    let inner: i128 = index_wide * offset.den + offset.num;
    assert(-0x2_0000_0000_0000_0000_0000_0000 <= size_wide * inner
        <= 0x2_0000_0000_0000_0000_0000_0000) by (nonlinear_arith)
        requires
            0 <= size_wide <= 0x1_0000_0000,
            -0x2_0000_0000_0000_0000 <= inner <= 0x2_0000_0000_0000_0000,
    ;
    let half_domain: i128 = (DOMAIN_SIZE / 2) as i128;
    assert(0 <= half_domain * offset.den <= 0x1_0000_0000_0000 && domain_start() * offset.den
        == -(half_domain * offset.den)) by (nonlinear_arith)
        requires
            half_domain == 300,
            domain_start() == -300,
            0 < offset.den <= 0x1_0000_0000,
    ;
    Rational { num: size_wide * inner - half_domain * offset.den, den: offset.den }
}

/// The world position of `point` in the cell `(row, col)`.
pub fn cell_position(
    point: CellPoint,
    col: u32,
    row: u32,
    square_size: u32,
    fractions: &EdgeFractions,
) -> (position: Position)
    requires
        col < u32::MAX,
        row < u32::MAX,
        fractions@.is_edge_sized(),
    ensures
        position@ == point_at(point, col as int, row as int, square_size as int, fractions@),
{
    let zero = Rational::zero();
    let x = match point {
        CellPoint::TopLeft | CellPoint::BottomLeft | CellPoint::LeftEdge => world_coordinate(
            col,
            square_size,
            &zero,
        ),
        CellPoint::TopRight | CellPoint::BottomRight | CellPoint::RightEdge => world_coordinate(
            col + 1,
            square_size,
            &zero,
        ),
        CellPoint::TopEdge => world_coordinate(col, square_size, &fractions.top),
        CellPoint::BottomEdge => world_coordinate(col, square_size, &fractions.bottom),
    };
    let y = match point {
        CellPoint::TopLeft | CellPoint::TopRight | CellPoint::TopEdge => world_coordinate(
            row,
            square_size,
            &zero,
        ),
        CellPoint::BottomLeft | CellPoint::BottomRight | CellPoint::BottomEdge => world_coordinate(
            row + 1,
            square_size,
            &zero,
        ),
        CellPoint::RightEdge => world_coordinate(row, square_size, &fractions.right),
        CellPoint::LeftEdge => world_coordinate(row, square_size, &fractions.left),
    };
    Position { x, y, z: zero }
}

} // verus!

use marching_squares::cell::cell_case;
use marching_squares::cell::cell_position;
use marching_squares::cell::edge_fractions;
use marching_squares::cell::world_coordinate;
use marching_squares::cell::CellPoint;
use marching_squares::cell::EdgeFractions;
use marching_squares::cell::Position;
use marching_squares::grid::ISOVALUE;
use marching_squares::grid::SAMPLE_ONE;
use marching_squares::ratio::Rational;

const ONE: i32 = SAMPLE_ONE;

#[test]
fn case_has_one_bit_per_corner() {
    assert_eq!(cell_case(0, 0, 0, 0), 0);
    assert_eq!(cell_case(0, 0, 0, ONE), 1);
    assert_eq!(cell_case(0, 0, ONE, 0), 2);
    assert_eq!(cell_case(0, 0, ONE, ONE), 3);
    assert_eq!(cell_case(0, ONE, 0, 0), 4);
    assert_eq!(cell_case(0, ONE, 0, ONE), 5);
    assert_eq!(cell_case(0, ONE, ONE, 0), 6);
    assert_eq!(cell_case(0, ONE, ONE, ONE), 7);
    assert_eq!(cell_case(ONE, 0, 0, 0), 8);
    assert_eq!(cell_case(ONE, 0, 0, ONE), 9);
    assert_eq!(cell_case(ONE, 0, ONE, 0), 10);
    assert_eq!(cell_case(ONE, 0, ONE, ONE), 11);
    assert_eq!(cell_case(ONE, ONE, 0, 0), 12);
    assert_eq!(cell_case(ONE, ONE, 0, ONE), 13);
    assert_eq!(cell_case(ONE, ONE, ONE, 0), 14);
    assert_eq!(cell_case(ONE, ONE, ONE, ONE), 15);
}

#[test]
fn sample_at_the_threshold_is_inside() {
    assert_eq!(cell_case(ISOVALUE, 0, 0, 0), 8);
    assert_eq!(cell_case(ISOVALUE - 1, 0, 0, 0), 0);
    assert_eq!(cell_case(ISOVALUE, ISOVALUE, ISOVALUE, ISOVALUE), 15);
    assert_eq!(
        cell_case(ISOVALUE - 1, ISOVALUE - 1, ISOVALUE - 1, ISOVALUE - 1),
        0
    );
}

#[test]
fn samples_far_from_the_unit_range_still_give_one_bit_each() {
    assert_eq!(cell_case(i32::MAX, i32::MIN, 3 * ONE, -3 * ONE), 10);
    assert_eq!(cell_case(i32::MIN, i32::MAX, -ONE, 2 * ONE), 5);
}

#[test]
fn fractions_without_interpolation_are_all_one_half() {
    let half = Rational { num: 1, den: 2 };
    let expected = EdgeFractions { top: half, right: half, bottom: half, left: half };
    assert_eq!(edge_fractions(0, ONE, 0, ONE, false), expected);
    assert_eq!(edge_fractions(7, 7, 7, 7, false), expected);
    assert_eq!(edge_fractions(i32::MIN, i32::MAX, 0, -1, false), expected);
}

#[test]
fn fractions_with_interpolation_follow_the_corner_samples() {
    // top-left 1.0, top-right 0.25, bottom-right 0.0, bottom-left 0.75
    let f = edge_fractions(65536, 16384, 0, 49152, true);
    assert_eq!(f.top, Rational { num: 32768, den: 49152 });
    assert_eq!(f.right, Rational { num: -16384, den: 16384 });
    assert_eq!(f.bottom, Rational { num: 16384, den: 49152 });
    assert_eq!(f.left, Rational { num: 32768, den: 16384 });
}

#[test]
fn fraction_of_a_flat_edge_is_zero_with_interpolation() {
    let f = edge_fractions(100, 100, 100, 100, true);
    let zero = Rational { num: 0, den: 1 };
    assert_eq!(f, EdgeFractions { top: zero, right: zero, bottom: zero, left: zero });
    let f = edge_fractions(ONE, ONE, 0, 0, true);
    assert_eq!(f.top, zero);
    assert_eq!(f.bottom, zero);
    assert_eq!(f.right, Rational { num: 32768, den: 65536 });
    assert_eq!(f.left, Rational { num: 32768, den: 65536 });
}

#[test]
fn world_coordinate_starts_at_the_corner_of_the_domain() {
    // 10 * (0 + 0) - 300
    assert_eq!(
        world_coordinate(0, 10, &Rational { num: 0, den: 1 }),
        Rational { num: -300, den: 1 }
    );
    // 10 * (60 + 0) - 300 = 300
    assert_eq!(
        world_coordinate(60, 10, &Rational { num: 0, den: 1 }),
        Rational { num: 300, den: 1 }
    );
    // 10 * (3 + 2 / 3) - 300 = -790 / 3
    assert_eq!(
        world_coordinate(3, 10, &Rational { num: 2, den: 3 }),
        Rational { num: -790, den: 3 }
    );
    // 7 * (3 + 1 / 2) - 300 = -275.5
    assert_eq!(
        world_coordinate(3, 7, &Rational { num: 1, den: 2 }),
        Rational { num: -551, den: 2 }
    );
    // a cell size of zero puts everything at the corner of the domain
    assert_eq!(
        world_coordinate(5, 0, &Rational { num: 1, den: 2 }),
        Rational { num: -600, den: 2 }
    );
}

#[test]
fn world_coordinate_at_the_limits_does_not_overflow() {
    let r = world_coordinate(
        u32::MAX,
        u32::MAX,
        &Rational { num: 0x1_0000_0000, den: 0x1_0000_0000 },
    );
    let inner: i128 = (u32::MAX as i128) * 0x1_0000_0000i128 + 0x1_0000_0000i128;
    assert_eq!(
        r,
        Rational {
            num: (u32::MAX as i128) * inner - 300 * 0x1_0000_0000i128,
            den: 0x1_0000_0000
        }
    );
}

#[test]
fn positions_of_the_eight_points_of_a_cell() {
    let fractions = EdgeFractions {
        top: Rational { num: 1, den: 4 },
        right: Rational { num: 1, den: 2 },
        bottom: Rational { num: 3, den: 4 },
        left: Rational { num: 1, den: 8 },
    };
    // the cell in column 2 and row 1, of side 8: from (-284, -292) to (-276, -284)
    let at = |p: CellPoint| cell_position(p, 2, 1, 8, &fractions);
    let zero = Rational { num: 0, den: 1 };
    let left = Rational { num: -284, den: 1 };
    let right = Rational { num: -276, den: 1 };
    let top = Rational { num: -292, den: 1 };
    let bottom = Rational { num: -284, den: 1 };
    assert_eq!(at(CellPoint::TopLeft), Position { x: left, y: top, z: zero });
    assert_eq!(at(CellPoint::TopRight), Position { x: right, y: top, z: zero });
    assert_eq!(at(CellPoint::BottomRight), Position { x: right, y: bottom, z: zero });
    assert_eq!(at(CellPoint::BottomLeft), Position { x: left, y: bottom, z: zero });
    // 8 * (2 + 1 / 4) - 300 = -282
    assert_eq!(
        at(CellPoint::TopEdge),
        Position { x: Rational { num: -1128, den: 4 }, y: top, z: zero }
    );
    // 8 * (1 + 1 / 2) - 300 = -288
    assert_eq!(
        at(CellPoint::RightEdge),
        Position { x: right, y: Rational { num: -576, den: 2 }, z: zero }
    );
    // 8 * (2 + 3 / 4) - 300 = -278
    assert_eq!(
        at(CellPoint::BottomEdge),
        Position { x: Rational { num: -1112, den: 4 }, y: bottom, z: zero }
    );
    // 8 * (1 + 1 / 8) - 300 = -291
    assert_eq!(
        at(CellPoint::LeftEdge),
        Position { x: left, y: Rational { num: -2328, den: 8 }, z: zero }
    );
}

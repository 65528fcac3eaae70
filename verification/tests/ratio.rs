use marching_squares::ratio::inverse_lerp;
use marching_squares::ratio::Rational;

#[test]
fn inverse_lerp_between_rising_ends() {
    assert_eq!(inverse_lerp(0, 65536, 32768), Rational { num: 32768, den: 65536 });
    assert_eq!(inverse_lerp(10, 20, 15), Rational { num: 5, den: 10 });
    assert_eq!(inverse_lerp(10, 20, 10), Rational { num: 0, den: 10 });
    assert_eq!(inverse_lerp(10, 20, 20), Rational { num: 10, den: 10 });
}

#[test]
fn inverse_lerp_between_falling_ends_keeps_denominator_positive() {
    assert_eq!(inverse_lerp(65536, 0, 32768), Rational { num: 32768, den: 65536 });
    assert_eq!(inverse_lerp(65536, 16384, 32768), Rational { num: 32768, den: 49152 });
    assert_eq!(inverse_lerp(20, 10, 12), Rational { num: 8, den: 10 });
}

#[test]
fn inverse_lerp_outside_the_ends() {
    // 0.5 seen from an edge that runs from 0.6 to 0.7 lies one edge length before its start.
    assert_eq!(inverse_lerp(60, 70, 50), Rational { num: -10, den: 10 });
    assert_eq!(inverse_lerp(70, 60, 50), Rational { num: 20, den: 10 });
}

#[test]
fn inverse_lerp_of_equal_ends_is_zero() {
    assert_eq!(inverse_lerp(5, 5, 32768), Rational { num: 0, den: 1 });
    assert_eq!(inverse_lerp(32768, 32768, 32768), Rational { num: 0, den: 1 });
    assert_eq!(inverse_lerp(i32::MIN, i32::MIN, i32::MAX), Rational { num: 0, den: 1 });
}

#[test]
fn inverse_lerp_at_the_limits_of_the_sample_range() {
    assert_eq!(
        inverse_lerp(i32::MIN, i32::MAX, 32768),
        Rational { num: 32768 + 2147483648, den: 4294967295 }
    );
    assert_eq!(
        inverse_lerp(i32::MAX, i32::MIN, 32768),
        Rational { num: 2147483647 - 32768, den: 4294967295 }
    );
}

#[test]
fn zero_and_half() {
    assert_eq!(Rational::zero(), Rational { num: 0, den: 1 });
    assert_eq!(Rational::half(), Rational { num: 1, den: 2 });
}

use stock_renderer::geometry::Ratio;
use stock_renderer::rounding::{nearest_float, MINUS_ONE, ONE};

fn nearest(num: i128, den: i128) -> Option<f32> {
    nearest_float(Ratio { num, den }).map(f32::from_bits)
}

#[test]
fn the_ends_and_the_middle_are_exact() {
    for den in [1, 2, 3, 40, 1 << 40, (1 << 66) - 1] {
        assert_eq!(nearest_float(Ratio { num: den, den }), Some(ONE));
        assert_eq!(nearest_float(Ratio { num: -den, den }), Some(MINUS_ONE));
        assert_eq!(nearest_float(Ratio { num: 0, den }), Some(0));
    }
    assert_eq!(f32::from_bits(ONE), 1.0);
    assert_eq!(f32::from_bits(MINUS_ONE), -1.0);
}

#[test]
fn simple_fractions_round_to_the_nearest_number() {
    assert_eq!(nearest(1, 2), Some(0.5));
    assert_eq!(nearest(-1, 2), Some(-0.5));
    assert_eq!(nearest(3, 4), Some(0.75));
    assert_eq!(nearest(1, 3), Some(1.0 / 3.0));
    assert_eq!(nearest(-1, 3), Some(-1.0 / 3.0));
    assert_eq!(nearest(2, 3), Some(2.0 / 3.0));
    assert_eq!(nearest(1, 10), Some(0.1));
    assert_eq!(nearest(-20, 40), Some(-0.5));
    assert_eq!(nearest_float(Ratio { num: 1, den: 3 }), Some(0x3EAA_AAAB));
    assert_eq!(nearest_float(Ratio { num: 2, den: 3 }), Some(0x3F2A_AAAB));
}

#[test]
fn what_is_no_coordinate_is_not_rounded() {
    assert_eq!(nearest_float(Ratio { num: 0, den: 0 }), None);
    assert_eq!(nearest_float(Ratio { num: 1, den: 0 }), None);
    assert_eq!(nearest_float(Ratio { num: 1, den: -2 }), None);
    assert_eq!(nearest_float(Ratio { num: 3, den: 2 }), None);
    assert_eq!(nearest_float(Ratio { num: -3, den: 2 }), None);
    assert_eq!(nearest_float(Ratio { num: 1, den: 1 << 66 }), None);
    assert_eq!(nearest_float(Ratio { num: i128::MIN, den: i128::MAX }), None);
    assert_eq!(nearest_float(Ratio { num: i128::MAX, den: i128::MIN }), None);
}

#[test]
fn the_smallest_coordinates_are_rounded_too() {
    assert_eq!(nearest(1, (1 << 66) - 1), Some(2.0f32.powi(-66)));
    assert_eq!(nearest(-1, 1 << 65), Some(-(2.0f32.powi(-65))));
    assert_eq!(nearest(3, 1 << 65), Some(3.0 * 2.0f32.powi(-65)));
}

#[test]
fn small_fractions_agree_with_division() {
    for den in 1..=200i128 {
        for num in -den..=den {
            assert_eq!(nearest(num, den), Some(num as f32 / den as f32), "{}/{}", num, den);
        }
    }
}

#[test]
fn fractions_of_twenty_four_bits_agree_with_division() {
    let mut state: u64 = 0x2545_F491_4F6C_DD1D;
    for _ in 0..20_000 {
        state ^= state << 13;
        state ^= state >> 7;
        state ^= state << 17;
        let den = ((state >> 8) % (1 << 24)) as i128 + 1;
        let num = ((state >> 36) as i128 % (den + 1)) * if state & 1 == 0 { 1 } else { -1 };
        assert_eq!(nearest(num, den), Some(num as f32 / den as f32), "{}/{}", num, den);
    }
}

#[test]
fn halves_go_to_the_even_neighbour() {
    // 1/2 + 2^-25 lies halfway between 1/2 and the next number above it.
    assert_eq!(nearest((1 << 24) + 1, 1 << 25), Some(0.5));
    // 1/2 + 3 * 2^-25 lies halfway between the next two.
    assert_eq!(nearest((1 << 24) + 3, 1 << 25), Some(f32::from_bits(0.5f32.to_bits() + 2)));
    // Just above and just below a half-way point.
    assert_eq!(nearest((1 << 40) + (1 << 16) + 1, 1 << 41), Some(f32::from_bits(0.5f32.to_bits() + 1)));
    assert_eq!(nearest((1 << 40) + (1 << 16) - 1, 1 << 41), Some(0.5));
}

#[test]
fn rounding_carries_into_the_next_power_of_two() {
    assert_eq!(nearest((1 << 25) - 1, 1 << 25), Some(1.0));
    assert_eq!(nearest(-((1 << 25) - 1), 1 << 25), Some(-1.0));
    assert_eq!(nearest((1 << 26) - 1, 1 << 27), Some(0.5));
    assert_eq!(nearest((1 << 24) - 1, 1 << 24), Some(1.0 - 2.0f32.powi(-24)));
}

#[test]
fn wide_fractions_agree_with_double_precision_where_that_is_exact() {
    for shift in [30, 45, 60, 65] {
        for num in [1i128, 3, 5, 1023, (1 << 24) - 1, 1 << 24, (1 << 24) + 2] {
            let den = 1i128 << shift;
            let exact = num as f64 / den as f64;
            assert_eq!(nearest(num, den), Some(exact as f32), "{}/2^{}", num, shift);
        }
    }
}

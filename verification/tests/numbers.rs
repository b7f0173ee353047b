use kneeboard::fixed::{div_round, from_int, round, trim_fraction, ONE};
use kneeboard::text::{
    clamp_i32, fixed_to_text, int_to_text, nat_text, padded_text,
};

#[test]
fn div_round_rounds_halves_away_from_zero() {
    assert_eq!(div_round(7, 2), 4);
    assert_eq!(div_round(-7, 2), -4);
    assert_eq!(div_round(5, 3), 2);
    assert_eq!(div_round(4, 3), 1);
    assert_eq!(div_round(-4, 3), -1);
    assert_eq!(div_round(-5, 3), -2);
    assert_eq!(div_round(9, 1), 9);
    assert_eq!(div_round(0, 5), 0);
    assert_eq!(div_round(i128::MIN, 1), i128::MIN);
    assert_eq!(div_round(i128::MAX, 2), i128::MAX / 2 + 1);
}

#[test]
fn round_gives_the_nearest_whole_number() {
    assert_eq!(round(from_int(86)), 86);
    assert_eq!(round(86 * ONE + 4_999_999), 86);
    assert_eq!(round(86 * ONE + 5_000_000), 87);
    assert_eq!(round(-86 * ONE - 5_000_000), -87);
    assert_eq!(round(-4_999_999), 0);
}

#[test]
fn trim_fraction_keeps_four_decimals() {
    assert_eq!(trim_fraction(4_209_448_819), 4_209_449_000);
    assert_eq!(trim_fraction(5_952_755_906), 5_952_756_000);
    assert_eq!(trim_fraction(1_234_499), 1_234_000);
    assert_eq!(trim_fraction(1_234_500), 1_235_000);
    assert_eq!(trim_fraction(-1_234_500), -1_235_000);
    assert_eq!(trim_fraction(0), 0);
}

#[test]
fn whole_numbers_in_decimal() {
    assert_eq!(nat_text(0), "0");
    assert_eq!(nat_text(7), "7");
    assert_eq!(nat_text(10), "10");
    assert_eq!(nat_text(65535), "65535");
    assert_eq!(nat_text(u128::MAX), "340282366920938463463374607431768211455");
    assert_eq!(int_to_text(-42), "-42");
    assert_eq!(int_to_text(42), "42");
    assert_eq!(int_to_text(0), "0");
    assert_eq!(int_to_text(i128::MIN), "-170141183460469231731687303715884105728");
}

#[test]
fn padding_adds_zeros_in_front() {
    assert_eq!(padded_text(7, 3), "007");
    assert_eq!(padded_text(0, 2), "00");
    assert_eq!(padded_text(123, 3), "123");
    assert_eq!(padded_text(1234, 3), "1234");
    assert_eq!(padded_text(15, 10), "0000000015");
    assert_eq!(padded_text(5, 0), "5");
}

#[test]
fn fixed_point_numbers_in_decimal() {
    assert_eq!(fixed_to_text(0), "0");
    assert_eq!(fixed_to_text(11 * ONE), "11");
    assert_eq!(fixed_to_text(9_000_000), "0.9");
    assert_eq!(fixed_to_text(4_209_449_000), "420.9449");
    assert_eq!(fixed_to_text(-113_386_000), "-11.3386");
    assert_eq!(fixed_to_text(-5_000_000), "-0.5");
    assert_eq!(fixed_to_text(1), "0.0000001");
    assert_eq!(fixed_to_text(10_000_001), "1.0000001");
    assert_eq!(fixed_to_text(100_500_000), "10.05");
    assert_eq!(fixed_to_text(-ONE), "-1");
}

#[test]
fn clamp_to_thirty_two_bits() {
    assert_eq!(clamp_i32(5_000_000_000), i32::MAX);
    assert_eq!(clamp_i32(-5_000_000_000), i32::MIN);
    assert_eq!(clamp_i32(-17), -17);
}

use kneeboard::calc::{rationalise_degree, Degree, FULL_TURN};
use kneeboard::fixed::ONE;

#[test]
fn check_rationalise_degree_negtive() {
    let actual = rationalise_degree((-1 - 360) * ONE);
    assert_eq!(actual, 359 * ONE)
}

#[test]
fn check_rationalise_degree_postive() {
    let actual = rationalise_degree((1 + 360) * ONE);
    assert_eq!(actual, 1 * ONE)
}

#[test]
fn check_rationalise_degree_360() {
    let actual = rationalise_degree(360 * ONE);
    assert_eq!(actual, 0)
}

#[test]
fn rationalise_degree_stays_within_a_turn() {
    for x in [
        0,
        1,
        -1,
        FULL_TURN - 1,
        FULL_TURN,
        FULL_TURN + 1,
        -FULL_TURN,
        -FULL_TURN - 1,
        7 * FULL_TURN + 5,
        i128::MAX,
        i128::MIN,
    ] {
        let once = rationalise_degree(x);
        assert!(0 <= once && once < FULL_TURN, "{x} gave {once}");
        assert_eq!(rationalise_degree(once), once);
    }
}

#[test]
fn rationalise_degree_of_small_negative_fraction() {
    assert_eq!(rationalise_degree(-1), FULL_TURN - 1);
}

#[test]
fn reciprocal_turns_half_a_turn() {
    assert_eq!(Degree::new(10 * ONE).reciprocal(), Degree::new(190 * ONE));
    assert_eq!(Degree::new(310 * ONE).reciprocal(), Degree::new(130 * ONE));
    assert_eq!(Degree::new(180 * ONE).reciprocal(), Degree::new(0));
}

#[test]
fn reciprocal_twice_is_the_bearing_itself() {
    for x in [0, 1, 45 * ONE, 180 * ONE, 359 * ONE + 9_999_999, -90 * ONE, 725 * ONE] {
        let d = Degree::new(x);
        assert_eq!(d.reciprocal().reciprocal(), d);
        assert_eq!(d.reciprocal().reciprocal().degrees(), rationalise_degree(x));
    }
}

#[test]
fn bearings_add_and_subtract_round_the_compass() {
    let a = Degree::new(350 * ONE);
    let b = Degree::new(20 * ONE);
    assert_eq!((a + b).degrees(), 10 * ONE);
    assert_eq!((b - a).degrees(), 30 * ONE);
    assert_eq!((a - b).degrees(), 330 * ONE);
    let mut c = a;
    c.add_assign(b);
    assert_eq!(c.degrees(), 10 * ONE);
}

#[test]
fn as_heading_pads_to_three_digits() {
    assert_eq!(Degree::new(0).as_heading(), "000");
    assert_eq!(Degree::new(9 * ONE).as_heading(), "009");
    assert_eq!(Degree::new(359 * ONE).as_heading(), "359");
    assert_eq!(Degree::new(45 * ONE).as_heading(), "045");
    assert_eq!(Degree::new(100 * ONE).as_heading(), "100");
}

#[test]
fn as_heading_rounds_halves_up() {
    assert_eq!(Degree::new(9 * ONE + ONE / 2).as_heading(), "010");
    assert_eq!(Degree::new(9 * ONE + ONE / 2 - 1).as_heading(), "009");
    assert_eq!(Degree::new(359 * ONE + ONE / 2).as_heading(), "360");
}

#[test]
fn as_heading_is_always_three_characters() {
    let mut x: i128 = 0;
    while x < FULL_TURN {
        assert_eq!(Degree::new(x).as_heading().len(), 3);
        x += 1_234_567;
    }
}

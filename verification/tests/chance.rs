use drive_explorer::blockchain::chance::{Chance, NEGATIVE_ZERO_BITS, ONE_BITS};

fn chance(probability: f64) -> Chance {
    Chance::from_bits(probability.to_bits()).expect("a probability")
}

#[test]
fn the_named_encodings_are_those_of_one_and_of_negative_zero() {
    assert_eq!(ONE_BITS, 1.0f64.to_bits());
    assert_eq!(NEGATIVE_ZERO_BITS, (-0.0f64).to_bits());
}

#[test]
fn numbers_from_zero_to_one_are_chances() {
    for probability in [0.0, -0.0, 1.0, 0.5, 0.25, 1.0 / 3.0, f64::MIN_POSITIVE, 5e-324, 1.0 - f64::EPSILON / 2.0] {
        let made = Chance::from_bits(probability.to_bits());
        assert!(made.is_some(), "{}", probability);
        assert_eq!(made.unwrap().to_bits(), probability.to_bits());
    }
}

#[test]
fn other_numbers_are_no_chances() {
    for number in [1.0 + f64::EPSILON, 2.0, -0.5, -5e-324, f64::INFINITY, f64::NEG_INFINITY, f64::NAN, -1.0, f64::MAX] {
        assert!(Chance::from_bits(number.to_bits()).is_none(), "{}", number);
    }
    assert!(Chance::from_bits(u64::MAX).is_none());
}

#[test]
fn a_chance_of_zero_never_fires() {
    for zero in [0.0f64, -0.0] {
        let never = chance(zero);
        for draw in [0, 1, u64::MAX / 2, u64::MAX] {
            assert!(!never.fires(draw));
        }
    }
}

#[test]
fn a_chance_of_one_always_fires() {
    let always = chance(1.0);
    for draw in [0, 1, u64::MAX / 2, u64::MAX - 1, u64::MAX] {
        assert!(always.fires(draw));
    }
}

#[test]
fn a_chance_fires_on_the_draws_below_it() {
    let half = chance(0.5);
    assert!(half.fires(0));
    assert!(half.fires((1u64 << 63) - 1));
    assert!(!half.fires(1u64 << 63));
    assert!(!half.fires(u64::MAX));
    let quarter = chance(0.25);
    assert!(quarter.fires((1u64 << 62) - 1));
    assert!(!quarter.fires(1u64 << 62));
    let three_quarters = chance(0.75);
    assert!(three_quarters.fires(3 * (1u64 << 62) - 1));
    assert!(!three_quarters.fires(3 * (1u64 << 62)));
}

#[test]
fn the_greatest_chance_below_one_misses_the_highest_draws() {
    let almost = chance(1.0 - f64::EPSILON / 2.0);
    assert!(almost.fires(u64::MAX - 2048));
    assert!(!almost.fires(u64::MAX - 2047));
    assert!(!almost.fires(u64::MAX));
}

#[test]
fn a_chance_that_is_not_a_multiple_of_the_grid_rounds_up() {
    // 2^-64 + 2^-65: only the draws 0 and 1 are below it.
    let small = chance(1.5 / 18446744073709551616.0);
    assert!(small.fires(0));
    assert!(small.fires(1));
    assert!(!small.fires(2));
    // 2^-70: only the draw 0 is below it.
    let smaller = chance(1.0 / 1180591620717411303424.0);
    assert!(smaller.fires(0));
    assert!(!smaller.fires(1));
}

#[test]
fn the_least_chances_fire_on_the_draw_zero_only() {
    for tiny in [f64::MIN_POSITIVE, 5e-324, 1e-300] {
        let rare = chance(tiny);
        assert!(rare.fires(0));
        assert!(!rare.fires(1));
        assert!(!rare.fires(u64::MAX));
    }
}

/// Whether `draw / 2^64` is less than `m * 2^(e - 1075)`, for a normal
/// number below 1 with the exponent field `e` and the significand `m`.
fn below(draw: u64, e: i32, m: u64) -> bool {
    let scale = e - 1011;
    if scale >= 0 {
        (draw as u128) < ((m as u128) << scale)
    } else if -scale >= 64 {
        draw == 0
    } else {
        ((draw as u128) << -scale) < m as u128
    }
}

#[test]
fn a_chance_fires_as_the_comparison_of_fractions_says() {
    let probabilities = [0.1, 0.3, 1.0 / 3.0, 0.9, 0.001, 0.999999, 1e-10, 1e-18, 1e-25];
    let draws = [0u64, 1, 2, 12345, 1 << 20, 1 << 40, 1 << 62, 1 << 63, u64::MAX - 1, u64::MAX];
    for probability in probabilities {
        let made = chance(probability);
        let bits = probability.to_bits();
        let e = ((bits >> 52) & 0x7ff) as i32;
        let m = (bits & ((1u64 << 52) - 1)) | (1u64 << 52);
        for draw in draws {
            assert_eq!(made.fires(draw), below(draw, e, m), "{} {}", probability, draw);
        }
        // The draws on either side of the chance.
        if e >= 1011 {
            let first_miss = m << (e - 1011);
            assert!(made.fires(first_miss - 1));
            assert!(!made.fires(first_miss));
        }
    }
}

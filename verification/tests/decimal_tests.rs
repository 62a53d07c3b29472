use rebalancing_ai::decimal::{
    checked_sum, narrow_i128, Decimal, Weight, NANOS_PER_UNIT, PARTS_PER_WHOLE,
};

fn d(nanos: i64) -> Decimal {
    Decimal::from_nanos(nanos)
}

#[test]
fn whole_numbers_are_scaled() {
    assert_eq!(NANOS_PER_UNIT, 1_000_000_000);
    assert_eq!(Decimal::from_units(150).unwrap().nanos, 150_000_000_000);
    assert_eq!(Decimal::from_units(-3).unwrap().nanos, -3_000_000_000);
    assert_eq!(Decimal::from_units(9_223_372_036).unwrap().nanos, 9_223_372_036_000_000_000);
    assert!(Decimal::from_units(9_223_372_037).is_none());
    assert!(Decimal::from_units(i64::MIN).is_none());
    assert_eq!(Decimal::zero().nanos(), 0);
    assert_eq!(Decimal::from_units(1).unwrap().nanos(), 1_000_000_000);
    assert_eq!(d(42), Decimal { nanos: 42 });
}

#[test]
fn sums_and_differences_are_exact() {
    assert_eq!(d(1).checked_add(d(2)), Some(d(3)));
    assert_eq!(d(i64::MAX).checked_add(d(0)), Some(d(i64::MAX)));
    assert_eq!(d(i64::MAX).checked_add(d(1)), None);
    assert_eq!(d(i64::MIN).checked_add(d(-1)), None);
    assert_eq!(d(5).checked_sub(d(7)), Some(d(-2)));
    assert_eq!(d(i64::MIN).checked_sub(d(1)), None);
    assert_eq!(d(0).checked_sub(d(i64::MIN)), None);
    assert_eq!(d(-1).checked_sub(d(i64::MIN)), Some(d(i64::MAX)));
}

#[test]
fn products_are_rounded_down() {
    // 10 * 150 = 1500
    assert_eq!(d(10_000_000_000).checked_mul(d(150_000_000_000)), Some(d(1_500_000_000_000)));
    // 0.000000001 * 0.5 rounds down to zero; the negative one rounds down to -0.000000001.
    assert_eq!(d(1).checked_mul(d(500_000_000)), Some(d(0)));
    assert_eq!(d(-1).checked_mul(d(500_000_000)), Some(d(-1)));
    assert_eq!(d(3).checked_mul(d(-500_000_000)), Some(d(-2)));
    assert_eq!(d(i64::MAX).checked_mul(d(1_000_000_000)), Some(d(i64::MAX)));
    assert_eq!(d(i64::MAX).checked_mul(d(1_000_000_001)), None);
    assert_eq!(d(i64::MIN).checked_mul(d(i64::MIN)), None);
    assert_eq!(d(i64::MIN).checked_mul(d(-1_000_000_000)), None);
}

#[test]
fn quotients_are_euclidean() {
    // 1400 / 80 = 17.5
    assert_eq!(d(1_400_000_000_000).checked_div(d(80_000_000_000)), Some(d(17_500_000_000)));
    // 1 / 3 and its three signed variants: the remainder is never negative.
    assert_eq!(d(1_000_000_000).checked_div(d(3_000_000_000)), Some(d(333_333_333)));
    assert_eq!(d(-1_000_000_000).checked_div(d(3_000_000_000)), Some(d(-333_333_334)));
    assert_eq!(d(1_000_000_000).checked_div(d(-3_000_000_000)), Some(d(-333_333_333)));
    assert_eq!(d(-1_000_000_000).checked_div(d(-3_000_000_000)), Some(d(333_333_334)));
    assert_eq!(d(1).checked_div(d(0)), None);
    assert_eq!(d(0).checked_div(d(0)), None);
    assert_eq!(d(i64::MAX).checked_div(d(999_999_999)), None);
    assert_eq!(d(i64::MIN).checked_div(d(-1_000_000_000)), None);
    assert_eq!(d(i64::MIN).checked_div(d(1_000_000_000)), Some(d(i64::MIN)));
}

#[test]
fn mul_div_rounds_once() {
    // 100 * 1 / 3
    assert_eq!(
        d(100_000_000_000).checked_mul_div(d(1_000_000_000), d(3_000_000_000)),
        Some(d(33_333_333_333))
    );
    // (2/3 rounded) * 3 would lose a billionth twice; one rounding does not.
    assert_eq!(d(2_000_000_000).checked_mul_div(d(3_000_000_000), d(3_000_000_000)), Some(d(2_000_000_000)));
    assert_eq!(d(-7).checked_mul_div(d(1), d(2)), Some(d(-4)));
    assert_eq!(d(7).checked_mul_div(d(1), d(-2)), Some(d(-3)));
    assert_eq!(d(7).checked_mul_div(d(1), d(0)), None);
    assert_eq!(d(i64::MAX).checked_mul_div(d(2), d(1)), None);
    assert_eq!(d(i64::MAX).checked_mul_div(d(i64::MAX), d(i64::MAX)), Some(d(i64::MAX)));
}

#[test]
fn sums_of_lists() {
    assert_eq!(checked_sum(&vec![]), Some(d(0)));
    assert_eq!(checked_sum(&vec![d(1), d(-3), d(10)]), Some(d(8)));
    // A partial sum may leave the range as long as the total comes back.
    assert_eq!(checked_sum(&vec![d(i64::MAX), d(i64::MAX), d(i64::MIN), d(i64::MIN)]), Some(d(-2)));
    assert_eq!(checked_sum(&vec![d(i64::MAX), d(1)]), None);
}

#[test]
fn narrowing_checks_the_range() {
    assert_eq!(narrow_i128(17), Some(d(17)));
    assert_eq!(narrow_i128(i64::MAX as i128), Some(d(i64::MAX)));
    assert_eq!(narrow_i128(i64::MAX as i128 + 1), None);
    assert_eq!(narrow_i128(i64::MIN as i128), Some(d(i64::MIN)));
    assert_eq!(narrow_i128(i64::MIN as i128 - 1), None);
}

#[test]
fn shares_are_euclidean_quotients_with_eighteen_digits() {
    assert_eq!(PARTS_PER_WHOLE, 1_000_000_000_000_000_000);
    assert_eq!(Weight::share(d(1), d(4)).parts, 250_000_000_000_000_000);
    assert_eq!(Weight::share(d(1), d(3)).parts, 333_333_333_333_333_333);
    assert_eq!(Weight::share(d(-1), d(3)).parts, -333_333_333_333_333_334);
    assert_eq!(Weight::share(d(1), d(-3)).parts, -333_333_333_333_333_333);
    assert_eq!(Weight::share(d(-1), d(-3)).parts, 333_333_333_333_333_334);
    assert_eq!(Weight::share(d(0), d(7)).parts, 0);
    assert_eq!(Weight::share(d(i64::MAX), d(1)).parts, i64::MAX as i128 * PARTS_PER_WHOLE);
    assert_eq!(Weight::share(d(i64::MIN), d(-1)).parts, -(i64::MIN as i128) * PARTS_PER_WHOLE);
    assert_eq!(Weight::from_parts(5).parts(), 5);
}

#[test]
fn scaling_by_a_weight_rounds_down() {
    let half = Weight::from_parts(PARTS_PER_WHOLE / 2);
    assert_eq!(d(6_500_000_000_000).checked_scale(half), Some(d(3_250_000_000_000)));
    assert_eq!(d(3).checked_scale(half), Some(d(1)));
    assert_eq!(d(-3).checked_scale(half), Some(d(-2)));
    assert_eq!(d(3).checked_scale(Weight::from_parts(-PARTS_PER_WHOLE / 2)), Some(d(-2)));
    assert_eq!(d(i64::MAX).checked_scale(Weight::from_parts(PARTS_PER_WHOLE)), Some(d(i64::MAX)));
    assert_eq!(d(i64::MAX).checked_scale(Weight::from_parts(PARTS_PER_WHOLE + 1)), None);
    // The product itself leaves 128 bits.
    assert_eq!(d(i64::MAX).checked_scale(Weight::from_parts(i128::MAX)), None);
    assert_eq!(d(0).checked_scale(Weight::from_parts(i128::MAX)), Some(d(0)));
}

use investments::decimal::Decimal;

fn dec(mantissa: i128, scale: u32) -> Decimal {
    Decimal::new(mantissa, scale).unwrap()
}

fn parts(d: Decimal) -> (i128, u32) {
    (d.mantissa(), d.scale())
}

#[test]
fn decimal_new_checks_the_range() {
    assert!(Decimal::new(79228162514264337593543950335, 28).is_some());
    assert!(Decimal::new(79228162514264337593543950336, 0).is_none());
    assert!(Decimal::new(-79228162514264337593543950336, 0).is_none());
    assert!(Decimal::new(1, 29).is_none());
    assert_eq!(parts(Decimal::from_int(-42)), (-42, 0));
}

#[test]
fn decimal_addition_is_exact_for_small_operands() {
    assert_eq!(parts(dec(15, 1).checked_add(dec(225, 2)).unwrap()), (375, 2));
    assert_eq!(parts(dec(5, 0).checked_sub(dec(75, 1)).unwrap()), (-25, 1));
    assert_eq!(parts(Decimal::zero().checked_add(dec(1234, 3)).unwrap()), (1234, 3));
    assert_eq!(parts(Decimal::zero().checked_sub(dec(1234, 3)).unwrap()), (-1234, 3));
}

#[test]
fn decimal_addition_overflows() {
    let max = dec(79228162514264337593543950335, 0);
    assert!(max.checked_add(Decimal::one()).is_none());
    assert!(max.neg().checked_sub(Decimal::one()).is_none());
}

#[test]
fn decimal_multiplication() {
    assert_eq!(parts(dec(15, 1).checked_mul(dec(2, 0)).unwrap()), (30, 1));
    assert_eq!(parts(dec(15, 1).checked_mul(Decimal::zero()).unwrap()), (0, 0));
    assert_eq!(parts(dec(-3, 0).checked_mul(dec(7, 2)).unwrap()), (-21, 2));
    assert!(dec(79228162514264337593543950335, 0).checked_mul(dec(2, 0)).is_none());
}

#[test]
fn decimal_division() {
    assert!(dec(1, 0).checked_div(dec(4, 0)).unwrap().equals(&dec(25, 2)));
    assert_eq!(parts(dec(1, 0).checked_div(dec(3, 0)).unwrap()), (3333333333333333333333333333, 28));
    assert!(dec(1, 0).checked_div(Decimal::zero()).is_none());
}

#[test]
fn decimal_rounding_goes_away_from_zero_at_the_midpoint() {
    assert_eq!(parts(dec(2345, 3).round_dp(2)), (235, 2));
    assert_eq!(parts(dec(-2345, 3).round_dp(2)), (-235, 2));
    assert_eq!(parts(dec(2344, 3).round_dp(2)), (234, 2));
    assert_eq!(parts(dec(15, 1).round_dp(0)), (2, 0));
    assert_eq!(parts(dec(12, 1).round_dp(2)), (12, 1));
}

#[test]
fn decimal_normalize_strips_trailing_zeros() {
    assert_eq!(parts(dec(3100, 3).normalize()), (31, 1));
    assert_eq!(parts(dec(0, 3).normalize()), (0, 0));
    assert_eq!(parts(dec(100, 0).normalize()), (100, 0));
    assert_eq!(parts(dec(-5000, 3).normalize()), (-5, 0));
}

#[test]
fn decimal_parse() {
    assert_eq!(parts(Decimal::parse("12.50").unwrap()), (1250, 2));
    assert_eq!(parts(Decimal::parse("-0.001").unwrap()), (-1, 3));
    assert!(Decimal::parse("abc").is_none());
    assert!(Decimal::parse("").is_none());
}

#[test]
fn decimal_comparison_is_by_value() {
    assert!(dec(10, 1).equals(&dec(100, 2)));
    assert!(!dec(10, 1).equals(&dec(101, 2)));
    assert!(dec(99, 2).less_than(&dec(1, 0)));
    assert!(!dec(1, 0).less_than(&dec(100, 2)));
    assert!(dec(-1, 0).less_than(&Decimal::zero()));
}

#[test]
fn decimal_signs() {
    assert!(Decimal::zero().is_zero());
    assert!(dec(1, 5).is_positive());
    assert!(dec(-1, 5).is_negative());
    assert_eq!(parts(dec(-25, 1).neg()), (25, 1));
}

#[test]
fn decimal_less_itself_is_zero_at_its_scale() {
    let big = dec(79228162514264337593543950335, 5);
    assert_eq!(parts(big.checked_sub(big).unwrap()), (0, 5));
    assert_eq!(parts(dec(-1234567, 3).checked_sub(dec(-1234567, 3)).unwrap()), (0, 3));
}

#[test]
fn decimal_zero_divided_is_zero() {
    assert_eq!(parts(dec(0, 7).checked_div(dec(3, 1)).unwrap()), (0, 0));
    assert_eq!(parts(Decimal::zero().checked_div(dec(79228162514264337593543950335, 0)).unwrap()), (0, 0));
    assert!(dec(0, 7).checked_div(Decimal::zero()).is_none());
}

#[test]
fn decimal_addition_is_exact_where_the_result_fits() {
    let big = dec(1180591620717411303424, 2);
    assert_eq!(parts(big.checked_add(dec(1, 0)).unwrap()), (1180591620717411303524, 2));
    assert_eq!(parts(big.checked_sub(dec(3, 1)).unwrap()), (1180591620717411303394, 2));
    assert_eq!(parts(dec(1, 25).checked_add(dec(1, 0)).unwrap()), (10000000000000000000000001, 25));
    assert_eq!(parts(dec(1, 0).checked_sub(dec(1, 25)).unwrap()), (9999999999999999999999999, 25));
}

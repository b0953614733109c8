use bigdecimal::num_bigint::BigInt;
use bigdecimal::BigDecimal;
use std::str::FromStr;
use unitcalc::decimal::ArithmeticError;
use unitcalc::decimal::Decimal;
use unitcalc::decimal::SCALE_LIMIT;

fn dec(text: &str) -> Decimal {
    let (digits, scale) = BigDecimal::from_str(text).unwrap().into_bigint_and_exponent();
    Decimal::new(digits.to_signed_bytes_le(), scale)
}

fn big(d: &Decimal) -> BigDecimal {
    BigDecimal::new(BigInt::from_signed_bytes_le(d.unscaled_bytes()), d.decimal_places())
}

fn lit(text: &str) -> BigDecimal {
    BigDecimal::from_str(text).unwrap()
}

#[test]
fn decimal_keeps_its_digits_and_scale() {
    let d = Decimal::new(vec![0x39, 0x30], 2);
    assert_eq!(d.unscaled_bytes(), &vec![0x39u8, 0x30u8]);
    assert_eq!(d.decimal_places(), 2);
    assert_eq!(big(&d), lit("123.45"));
    let negative = Decimal::new(vec![0xff], 0);
    assert_eq!(big(&negative), lit("-1"));
    let empty = Decimal::new(vec![], 0);
    assert!(empty.is_zero());
}

#[test]
fn from_u64_is_the_integer() {
    assert_eq!(big(&Decimal::from_u64(7)), lit("7"));
    assert_eq!(Decimal::from_u64(7).decimal_places(), 0);
    assert_eq!(big(&Decimal::from_u64(u64::MAX)), lit("18446744073709551615"));
    assert_eq!(big(&Decimal::from_u64(0)), lit("0"));
}

#[test]
fn is_zero_tells_zero_from_other_numbers() {
    assert!(dec("0").is_zero());
    assert!(dec("0.000").is_zero());
    assert!(!dec("1").is_zero());
    assert!(!dec("-0.001").is_zero());
}

#[test]
fn negated_changes_the_sign() {
    assert_eq!(big(&dec("3").negated()), lit("-3"));
    assert_eq!(big(&dec("-2.5").negated()), lit("2.5"));
    assert_eq!(dec("-2.50").negated().decimal_places(), 2);
    assert!(dec("0").negated().is_zero());
}

#[test]
fn checked_add_is_exact() {
    let sum = dec("1.5").checked_add(&dec("2.25")).unwrap();
    assert_eq!(big(&sum), lit("3.75"));
    assert_eq!(sum.decimal_places(), 2);
    let tiny = dec("0.1").checked_add(&dec("0.2")).unwrap();
    assert_eq!(big(&tiny), lit("0.3"));
    let with_zero = dec("0").checked_add(&dec("4")).unwrap();
    assert_eq!(big(&with_zero), lit("4"));
}

#[test]
fn checked_sub_is_exact() {
    let difference = dec("1.5").checked_sub(&dec("2.25")).unwrap();
    assert_eq!(big(&difference), lit("-0.75"));
    assert_eq!(difference.decimal_places(), 2);
    let from_zero = dec("0").checked_sub(&dec("4.0")).unwrap();
    assert_eq!(big(&from_zero), lit("-4"));
    assert_eq!(from_zero.decimal_places(), 1);
    let less_zero = dec("4").checked_sub(&dec("0.00")).unwrap();
    assert_eq!(big(&less_zero), lit("4"));
    assert_eq!(less_zero.decimal_places(), 0);
}

#[test]
fn checked_mul_is_exact() {
    let product = dec("1.5").checked_mul(&dec("-2.25")).unwrap();
    assert_eq!(big(&product), lit("-3.375"));
    assert_eq!(product.decimal_places(), 3);
    let by_one = dec("1").checked_mul(&dec("2.50")).unwrap();
    assert_eq!(big(&by_one), lit("2.5"));
    assert_eq!(by_one.decimal_places(), 2);
    let large = dec("123456789012345678901234567890").checked_mul(&dec("10")).unwrap();
    assert_eq!(big(&large), lit("1234567890123456789012345678900"));
}

#[test]
fn checked_div_gives_the_quotient() {
    let quarter = dec("1").checked_div(&dec("4")).unwrap();
    assert_eq!(big(&quarter), lit("0.25"));
    let negative = dec("-7.5").checked_div(&dec("2.5")).unwrap();
    assert_eq!(big(&negative), lit("-3"));
    let third = dec("1").checked_div(&dec("3")).unwrap();
    assert_eq!(big(&third), lit("1") / lit("3"));
    assert_ne!(big(&third), lit("1"));
}

#[test]
fn checked_div_refuses_a_zero_divisor() {
    assert_eq!(dec("1").checked_div(&dec("0")).unwrap_err(), ArithmeticError::DivisionByZero);
    assert_eq!(dec("0").checked_div(&dec("0.00")).unwrap_err(), ArithmeticError::DivisionByZero);
}

#[test]
fn checked_rem_has_the_sign_of_the_dividend() {
    assert_eq!(big(&dec("7").checked_rem(&dec("3")).unwrap()), lit("1"));
    assert_eq!(big(&dec("-7").checked_rem(&dec("3")).unwrap()), lit("-1"));
    assert_eq!(big(&dec("7").checked_rem(&dec("-3")).unwrap()), lit("1"));
    assert_eq!(big(&dec("1.5").checked_rem(&dec("1")).unwrap()), lit("0.5"));
    assert_eq!(big(&dec("10").checked_rem(&dec("0.003")).unwrap()), lit("0.001"));
    assert_eq!(big(&dec("-9.5").checked_rem(&dec("5.15")).unwrap()), lit("-4.35"));
}

#[test]
fn checked_rem_refuses_a_zero_divisor() {
    assert_eq!(dec("5").checked_rem(&dec("0")).unwrap_err(), ArithmeticError::DivisionByZero);
}

#[test]
fn checked_inverse_gives_the_reciprocal() {
    assert_eq!(big(&dec("2").checked_inverse().unwrap()), lit("0.5"));
    assert_eq!(big(&dec("-4").checked_inverse().unwrap()), lit("-0.25"));
    assert_eq!(big(&dec("0.1").checked_inverse().unwrap()), lit("10"));
    assert_eq!(big(&dec("3").checked_inverse().unwrap()), lit("3").inverse());
}

#[test]
fn checked_pow_multiplies_repeatedly() {
    assert_eq!(big(&dec("2").checked_pow(10).unwrap()), lit("1024"));
    assert_eq!(big(&dec("1.5").checked_pow(3).unwrap()), lit("3.375"));
    assert_eq!(big(&dec("-3").checked_pow(3).unwrap()), lit("-27"));
    assert_eq!(big(&dec("10").checked_pow(30).unwrap()), lit("1000000000000000000000000000000"));
}

#[test]
fn checked_pow_of_zero_exponent_is_one() {
    assert_eq!(big(&dec("2").checked_pow(0).unwrap()), lit("1"));
    assert_eq!(big(&dec("0").checked_pow(0).unwrap()), lit("1"));
    let far = Decimal::new(vec![1], SCALE_LIMIT + 1);
    assert_eq!(big(&far.checked_pow(0).unwrap()), lit("1"));
}

#[test]
fn checked_pow_of_negative_exponent_inverts() {
    assert_eq!(big(&dec("2").checked_pow(-1).unwrap()), lit("0.5"));
    assert_eq!(big(&dec("2").checked_pow(-2).unwrap()), lit("0.25"));
    assert_eq!(big(&dec("10").checked_pow(-3).unwrap()), lit("0.001"));
}

#[test]
fn to_integer_gives_integers_that_fit() {
    assert_eq!(dec("10").to_integer(), Some(10));
    assert_eq!(dec("10.000").to_integer(), Some(10));
    assert_eq!(dec("-3").to_integer(), Some(-3));
    assert_eq!(dec("0").to_integer(), Some(0));
    assert_eq!(dec("2e3").to_integer(), Some(2000));
    assert_eq!(dec("9223372036854775807").to_integer(), Some(i64::MAX));
    assert_eq!(dec("-9223372036854775808").to_integer(), Some(i64::MIN));
}

#[test]
fn to_integer_refuses_fractions_and_integers_that_do_not_fit() {
    assert_eq!(dec("2.5").to_integer(), None);
    assert_eq!(dec("-0.001").to_integer(), None);
    assert_eq!(dec("9223372036854775808").to_integer(), None);
    assert_eq!(dec("-9223372036854775809").to_integer(), None);
    assert_eq!(dec("1e30").to_integer(), None);
}

#[test]
fn operands_out_of_range_are_refused() {
    let far = Decimal::new(vec![1], SCALE_LIMIT + 1);
    let near = Decimal::new(vec![1], SCALE_LIMIT);
    let low = Decimal::new(vec![1], -SCALE_LIMIT - 1);
    let one = dec("1");
    assert!(!far.in_range());
    assert!(!low.in_range());
    assert!(near.in_range());
    assert!(one.in_range());
    assert!(far.checked_add(&one).is_none());
    assert!(one.checked_add(&far).is_none());
    assert!(one.checked_sub(&low).is_none());
    assert!(far.checked_mul(&one).is_none());
    assert!(far.checked_inverse().is_none());
    assert!(far.checked_pow(1).is_none());
    assert!(far.checked_pow(-1).is_none());
    assert_eq!(far.to_integer(), None);
    assert_eq!(low.to_integer(), None);
    assert_eq!(far.checked_div(&one).unwrap_err(), ArithmeticError::OutOfRange);
    assert_eq!(one.checked_div(&far).unwrap_err(), ArithmeticError::OutOfRange);
    assert_eq!(far.checked_rem(&one).unwrap_err(), ArithmeticError::OutOfRange);
    assert_eq!(far.checked_div(&dec("0")).unwrap_err(), ArithmeticError::OutOfRange);
    let product = near.checked_mul(&near).unwrap();
    assert_eq!(product.decimal_places(), 2 * SCALE_LIMIT);
    assert!(!product.in_range());
}

#[test]
fn clone_of_a_decimal_is_the_same_number() {
    let d = dec("-123456789012345678901234567890.125");
    let copy = d.clone();
    assert_eq!(copy.unscaled_bytes(), d.unscaled_bytes());
    assert_eq!(copy.decimal_places(), d.decimal_places());
    assert_eq!(big(&copy), lit("-123456789012345678901234567890.125"));
}

#[test]
fn results_are_written_with_the_larger_scale() {
    let sum = dec("0").checked_add(&dec("1e-20")).unwrap();
    assert_eq!(big(&sum), lit("1e-20"));
    assert_eq!(sum.decimal_places(), 20);
    let padded = Decimal::new(vec![0], 20).checked_add(&dec("1")).unwrap();
    assert_eq!(big(&padded), lit("1"));
    assert_eq!(padded.decimal_places(), 20);
    let difference = dec("2.5").checked_sub(&dec("0.125")).unwrap();
    assert_eq!(big(&difference), lit("2.375"));
    assert_eq!(difference.decimal_places(), 3);
    let remainder = dec("10").checked_rem(&dec("0.003")).unwrap();
    assert_eq!(remainder.decimal_places(), 3);
    let coarse = dec("7.25").checked_rem(&dec("2")).unwrap();
    assert_eq!(big(&coarse), lit("1.25"));
    assert_eq!(coarse.decimal_places(), 2);
    let product = dec("2e3").checked_mul(&dec("0.5")).unwrap();
    assert_eq!(big(&product), lit("1000"));
    assert_eq!(product.decimal_places(), -2);
}

//! Exact decimal magnitudes.
//!
//! A [`Decimal`] holds an integer of any size and a scale: the number of its digits that
//! stand after the decimal point. The arithmetic itself is done by the `bigdecimal` crate;
//! the functions of this module say what comes back, and keep its operands within the
//! scales for which that crate's scale arithmetic cannot overflow.

use bigdecimal::num_bigint::BigInt;
use bigdecimal::BigDecimal;
use bigdecimal::ToPrimitive;
use bigdecimal::Zero;
use vstd::prelude::*;

verus! {

/// The largest scale, in absolute value, that an operand of the arithmetic may have.
pub const SCALE_LIMIT: i64 = 2_147_483_647;

/// Ten to the power `n`.
pub open spec fn pow10(n: nat) -> nat
    decreases n,
{
    if n == 0 {
        1
    } else {
        10 * pow10((n - 1) as nat)
    }
}

/// 256 to the power `n`.
pub open spec fn pow256(n: nat) -> nat
    decreases n,
{
    if n == 0 {
        1
    } else {
        256 * pow256((n - 1) as nat)
    }
}

/// The natural number that `bytes` spell in base 256, least significant byte first.
pub open spec fn unsigned_le(bytes: Seq<u8>) -> nat
    decreases bytes.len(),
{
    if bytes.len() == 0 {
        0
    } else {
        bytes[0] as nat + 256 * unsigned_le(bytes.drop_first())
    }
}

/// The integer that `bytes` spell in two's complement, least significant byte first. The
/// empty sequence spells 0.
pub open spec fn signed_le(bytes: Seq<u8>) -> int {
    if bytes.len() > 0 && bytes.last() >= 128 {
        unsigned_le(bytes) - pow256(bytes.len())
    } else {
        unsigned_le(bytes) as int
    }
}

/// The larger of two integers.
pub open spec fn larger(a: int, b: int) -> int {
    if a >= b {
        a
    } else {
        b
    }
}

/// The absolute value of an integer.
pub open spec fn magnitude(a: int) -> nat {
    if a >= 0 {
        a as nat
    } else {
        (-a) as nat
    }
}

/// The remainder of the division of `a` by `b` that rounds towards zero: it has the sign
/// of `a`.
pub open spec fn truncated_remainder(a: int, b: int) -> int
    recommends
        b != 0,
{
    if a >= 0 {
        (a as nat % magnitude(b)) as int
    } else {
        -(((-a) as nat % magnitude(b)) as int)
    }
}

/// A decimal number as mathematics sees it: the number `unscaled / 10^scale`.
pub struct DecimalView {
    pub unscaled: int,
    pub scale: int,
}

impl DecimalView {
    /// Whether the scale is one that the arithmetic takes as an operand's.
    pub open spec fn in_range(self) -> bool {
        -SCALE_LIMIT <= self.scale <= SCALE_LIMIT
    }

    /// The unscaled integer of the same number written with `scale` digits after the point,
    /// for a `scale` that is not smaller than its own.
    pub open spec fn at_scale(self, scale: int) -> int
        recommends
            scale >= self.scale,
    {
        self.unscaled * pow10((scale - self.scale) as nat)
    }

    /// Whether the number is an integer.
    pub open spec fn is_integral(self) -> bool {
        self.scale <= 0 || self.unscaled % (pow10(self.scale as nat) as int) == 0
    }

    /// The value of a number that is an integer.
    pub open spec fn integer_value(self) -> int
        recommends
            self.is_integral(),
    {
        if self.scale <= 0 {
            self.unscaled * pow10((-self.scale) as nat)
        } else {
            self.unscaled / (pow10(self.scale as nat) as int)
        }
    }
}

/// The integer `n` as a decimal.
pub open spec fn whole(n: int) -> DecimalView {
    DecimalView { unscaled: n, scale: 0 }
}

/// The sum of two decimals, written with the larger of their scales.
pub open spec fn exact_sum(a: DecimalView, b: DecimalView) -> DecimalView {
    let scale = larger(a.scale, b.scale);
    DecimalView { unscaled: a.at_scale(scale) + b.at_scale(scale), scale }
}

/// The difference of two decimals. Taking zero away leaves the first as it is written, and
/// zero less a number is that number negated; otherwise the result is written with the
/// larger of the two scales.
pub open spec fn exact_difference(a: DecimalView, b: DecimalView) -> DecimalView {
    if b.unscaled == 0 {
        a
    } else if a.unscaled == 0 {
        DecimalView { unscaled: -b.unscaled, scale: b.scale }
    } else {
        let scale = larger(a.scale, b.scale);
        DecimalView { unscaled: a.at_scale(scale) - b.at_scale(scale), scale }
    }
}

/// The product of two decimals: unscaled integers multiply, scales add.
pub open spec fn exact_product(a: DecimalView, b: DecimalView) -> DecimalView {
    DecimalView { unscaled: a.unscaled * b.unscaled, scale: a.scale + b.scale }
}

/// The remainder of `a` by `b`, with the sign of `a`, written with the larger of the two
/// scales.
pub open spec fn exact_remainder(a: DecimalView, b: DecimalView) -> DecimalView
    recommends
        b.unscaled != 0,
{
    let scale = larger(a.scale, b.scale);
    DecimalView { unscaled: truncated_remainder(a.at_scale(scale), b.at_scale(scale)), scale }
}

/// The same number with the opposite sign.
pub open spec fn negation(a: DecimalView) -> DecimalView {
    DecimalView { unscaled: -a.unscaled, scale: a.scale }
}

/// What `bigdecimal` gives for `a / b`: the quotient, rounded where it has more digits
/// than the precision that the crate was built with.
pub uninterp spec fn decimal_quotient(a: DecimalView, b: DecimalView) -> DecimalView;

/// What `bigdecimal` gives for the reciprocal of `a`, rounded to the precision that the
/// crate was built with.
pub uninterp spec fn decimal_inverse(a: DecimalView) -> DecimalView;

/// Why an operation on decimals gave no number.
#[derive(Clone, Copy, Debug, PartialEq, Eq, Structural)]
pub enum ArithmeticError {
    /// The divisor is zero.
    DivisionByZero,
    /// The scale of an operand is beyond [`SCALE_LIMIT`].
    OutOfRange,
}

/// The sum, where both operands are in range.
pub open spec fn sum_model(a: DecimalView, b: DecimalView) -> Option<DecimalView> {
    if a.in_range() && b.in_range() {
        Some(exact_sum(a, b))
    } else {
        None
    }
}

/// The difference, where both operands are in range.
pub open spec fn difference_model(a: DecimalView, b: DecimalView) -> Option<DecimalView> {
    if a.in_range() && b.in_range() {
        Some(exact_difference(a, b))
    } else {
        None
    }
}

/// The product, where both operands are in range.
pub open spec fn product_model(a: DecimalView, b: DecimalView) -> Option<DecimalView> {
    if a.in_range() && b.in_range() {
        Some(exact_product(a, b))
    } else {
        None
    }
}

/// The quotient: refused for operands out of range, then for a zero divisor.
pub open spec fn quotient_model(a: DecimalView, b: DecimalView) -> Result<
    DecimalView,
    ArithmeticError,
> {
    if !(a.in_range() && b.in_range()) {
        Err(ArithmeticError::OutOfRange)
    } else if b.unscaled == 0 {
        Err(ArithmeticError::DivisionByZero)
    } else {
        Ok(decimal_quotient(a, b))
    }
}

/// The remainder: refused for operands out of range, then for a zero divisor.
pub open spec fn remainder_model(a: DecimalView, b: DecimalView) -> Result<
    DecimalView,
    ArithmeticError,
> {
    if !(a.in_range() && b.in_range()) {
        Err(ArithmeticError::OutOfRange)
    } else if b.unscaled == 0 {
        Err(ArithmeticError::DivisionByZero)
    } else {
        Ok(exact_remainder(a, b))
    }
}

/// The reciprocal, where the operand is in range. The reciprocal of zero is what
/// [`decimal_inverse`] names, not an error.
pub open spec fn inverse_model(a: DecimalView) -> Option<DecimalView> {
    if a.in_range() {
        Some(decimal_inverse(a))
    } else {
        None
    }
}

/// `a` multiplied `k` times onto 1, from the left: `((1 * a) * a) * ..`. `None` as soon as
/// an operand of one of these products is out of range.
pub open spec fn repeated_product(a: DecimalView, k: nat) -> Option<DecimalView>
    decreases k,
{
    if k == 0 {
        Some(whole(1))
    } else {
        match repeated_product(a, (k - 1) as nat) {
            Some(p) => product_model(p, a),
            None => None,
        }
    }
}

/// `a` to the integer power `n`: the repeated product of `|n|` factors, inverted where `n`
/// is negative.
pub open spec fn power_model(a: DecimalView, n: int) -> Option<DecimalView> {
    match repeated_product(a, magnitude(n)) {
        Some(p) => if n < 0 {
            inverse_model(p)
        } else {
            Some(p)
        },
        None => None,
    }
}

/// The value of a decimal as an `i64`: that of an integer in range that fits.
pub open spec fn integer_model(a: DecimalView) -> Option<i64> {
    if a.in_range() && a.is_integral() && i64::MIN <= a.integer_value() <= i64::MAX {
        Some(a.integer_value() as i64)
    } else {
        None
    }
}

/// The integer `b` to the power `k`.
pub open spec fn int_power(b: int, k: nat) -> int
    decreases k,
{
    if k == 0 {
        1
    } else {
        int_power(b, (k - 1) as nat) * b
    }
}

/// Any number to the power 0 is 1.
pub proof fn law_power_zero_is_one(a: DecimalView)
    ensures
        power_model(a, 0) == Some(whole(1)),
{
}

/// A power of an integer with an exponent that is not negative is computed exactly: it is
/// the integer power, with no digit after the point.
pub proof fn law_integer_power_exact(b: int, k: nat)
    ensures
        repeated_product(whole(b), k) == Some(whole(int_power(b, k))),
        power_model(whole(b), k as int) == Some(whole(int_power(b, k))),
    decreases k,
{
    if k > 0 {
        law_integer_power_exact(b, (k - 1) as nat);
    }
}

/// Once a repeated product has failed, every longer one fails.
pub proof fn lemma_repeated_product_stays_none(a: DecimalView, k: nat, m: nat)
    requires
        repeated_product(a, k) is None,
        k <= m,
    ensures
        repeated_product(a, m) is None,
    decreases m,
{
    if k < m {
        lemma_repeated_product_stays_none(a, k, (m - 1) as nat);
    }
}

/// An exact decimal number of any size.
#[derive(Debug)]
pub struct Decimal {
    digits: Vec<u8>,
    scale: i64,
}

impl View for Decimal {
    type V = DecimalView;

    open spec fn view(&self) -> DecimalView {
        DecimalView { unscaled: signed_le(self.digits()@), scale: self.scale() as int }
    }
}

/// `BigDecimal::from` for a `u64`: the integer `n`, with scale 0.
#[verifier::external_body]
fn big_from_u64(n: u64) -> (r: Decimal)
    ensures
        r@ == whole(n as int),
{
    let (digits, scale) = BigDecimal::from(n).into_bigint_and_exponent();
    Decimal { digits: digits.to_signed_bytes_le(), scale }
}

/// `Zero::is_zero` of `BigDecimal`: whether the unscaled integer is 0.
#[verifier::external_body]
fn big_is_zero(a: &Decimal) -> (b: bool)
    ensures
        b == (a@.unscaled == 0),
{
    BigDecimal::new(BigInt::from_signed_bytes_le(&a.digits), a.scale).is_zero()
}

/// `Neg` of `BigDecimal`: the unscaled integer is negated, the scale is kept.
#[verifier::external_body]
fn big_neg(a: &Decimal) -> (r: Decimal)
    ensures
        r@ == negation(a@),
{
    let x = BigDecimal::new(BigInt::from_signed_bytes_le(&a.digits), a.scale);
    let (digits, scale) = (-x).into_bigint_and_exponent();
    Decimal { digits: digits.to_signed_bytes_le(), scale }
}

/// `BigDecimal + &BigDecimal`: the operand with the smaller scale is brought to the larger
/// one, then the unscaled integers are added.
#[verifier::external_body]
fn big_add(a: &Decimal, b: &Decimal) -> (r: Decimal)
    requires
        a@.in_range(),
        b@.in_range(),
    ensures
        r@ == exact_sum(a@, b@),
{
    let x = BigDecimal::new(BigInt::from_signed_bytes_le(&a.digits), a.scale);
    let y = BigDecimal::new(BigInt::from_signed_bytes_le(&b.digits), b.scale);
    let (digits, scale) = (x + &y).into_bigint_and_exponent();
    Decimal { digits: digits.to_signed_bytes_le(), scale }
}

/// `BigDecimal - &BigDecimal`: a zero operand is not aligned; otherwise the operand with
/// the smaller scale is brought to the larger one and the unscaled integers are subtracted.
#[verifier::external_body]
fn big_sub(a: &Decimal, b: &Decimal) -> (r: Decimal)
    requires
        a@.in_range(),
        b@.in_range(),
    ensures
        r@ == exact_difference(a@, b@),
{
    let x = BigDecimal::new(BigInt::from_signed_bytes_le(&a.digits), a.scale);
    let y = BigDecimal::new(BigInt::from_signed_bytes_le(&b.digits), b.scale);
    let (digits, scale) = (x - &y).into_bigint_and_exponent();
    Decimal { digits: digits.to_signed_bytes_le(), scale }
}

/// `BigDecimal * &BigDecimal`: the scales are added and the unscaled integers multiplied.
#[verifier::external_body]
fn big_mul(a: &Decimal, b: &Decimal) -> (r: Decimal)
    requires
        a@.in_range(),
        b@.in_range(),
    ensures
        r@ == exact_product(a@, b@),
{
    let x = BigDecimal::new(BigInt::from_signed_bytes_le(&a.digits), a.scale);
    let y = BigDecimal::new(BigInt::from_signed_bytes_le(&b.digits), b.scale);
    let (digits, scale) = (x * &y).into_bigint_and_exponent();
    Decimal { digits: digits.to_signed_bytes_le(), scale }
}

/// `&BigDecimal / &BigDecimal`, which panics on a zero divisor. The quotient is a function
/// of the operands; its digits are not stated here.
#[verifier::external_body]
fn big_div(a: &Decimal, b: &Decimal) -> (r: Decimal)
    requires
        a@.in_range(),
        b@.in_range(),
        b@.unscaled != 0,
    ensures
        r@ == decimal_quotient(a@, b@),
{
    let x = BigDecimal::new(BigInt::from_signed_bytes_le(&a.digits), a.scale);
    let y = BigDecimal::new(BigInt::from_signed_bytes_le(&b.digits), b.scale);
    let (digits, scale) = (&x / &y).into_bigint_and_exponent();
    Decimal { digits: digits.to_signed_bytes_le(), scale }
}

/// `&BigDecimal % &BigDecimal`, which panics on a zero divisor: both operands are brought
/// to the larger scale, and the remainder of the unscaled integers has the dividend's sign.
#[verifier::external_body]
fn big_rem(a: &Decimal, b: &Decimal) -> (r: Decimal)
    requires
        a@.in_range(),
        b@.in_range(),
        b@.unscaled != 0,
    ensures
        r@ == exact_remainder(a@, b@),
{
    let x = BigDecimal::new(BigInt::from_signed_bytes_le(&a.digits), a.scale);
    let y = BigDecimal::new(BigInt::from_signed_bytes_le(&b.digits), b.scale);
    let (digits, scale) = (&x % &y).into_bigint_and_exponent();
    Decimal { digits: digits.to_signed_bytes_le(), scale }
}

/// `BigDecimal::inverse`. The reciprocal is a function of the operand; its digits are not
/// stated here.
#[verifier::external_body]
fn big_inverse(a: &Decimal) -> (r: Decimal)
    requires
        a@.in_range(),
    ensures
        r@ == decimal_inverse(a@),
{
    let x = BigDecimal::new(BigInt::from_signed_bytes_le(&a.digits), a.scale);
    let (digits, scale) = x.inverse().into_bigint_and_exponent();
    Decimal { digits: digits.to_signed_bytes_le(), scale }
}

/// `BigDecimal::is_integer`: true for a scale that is not positive, and else where
/// ten to the scale divides the unscaled integer.
#[verifier::external_body]
fn big_is_integer(a: &Decimal) -> (b: bool)
    requires
        a@.in_range(),
    ensures
        b == a@.is_integral(),
{
    BigDecimal::new(BigInt::from_signed_bytes_le(&a.digits), a.scale).is_integer()
}

/// `ToPrimitive::to_i64` of `BigDecimal`, for a number that is an integer: its value
/// where that fits, else `None`.
#[verifier::external_body]
fn big_to_i64(a: &Decimal) -> (r: Option<i64>)
    requires
        a@.in_range(),
        a@.is_integral(),
    ensures
        r == if i64::MIN <= a@.integer_value() <= i64::MAX {
            Some(a@.integer_value() as i64)
        } else {
            None
        },
{
    BigDecimal::new(BigInt::from_signed_bytes_le(&a.digits), a.scale).to_i64()
}

impl Decimal {
    /// The decimal with the unscaled integer that `digits` spell in two's complement,
    /// least significant byte first, and with `scale` digits after the point.
    pub fn new(digits: Vec<u8>, scale: i64) -> (d: Decimal)
        ensures
            d.digits()@ == digits@,
            d.scale() == scale,
    {
        Decimal { digits, scale }
    }

    /// The bytes of the unscaled integer.
    pub closed spec fn digits(&self) -> Vec<u8> {
        self.digits
    }

    /// The number of digits after the decimal point.
    pub closed spec fn scale(&self) -> i64 {
        self.scale
    }

    /// The bytes of the unscaled integer: two's complement, least significant byte first.
    pub fn unscaled_bytes(&self) -> (bytes: &Vec<u8>)
        ensures
            bytes@ == self.digits()@,
    {
        &self.digits
    }

    /// The number of digits after the decimal point; negative where the number is a
    /// multiple of a power of ten that is written without its zeros.
    pub fn decimal_places(&self) -> (scale: i64)
        ensures
            scale == self.scale(),
    {
        self.scale
    }

    /// Whether the arithmetic takes this number as an operand.
    pub fn in_range(&self) -> (b: bool)
        ensures
            b == self@.in_range(),
    {
        -SCALE_LIMIT <= self.scale && self.scale <= SCALE_LIMIT
    }

    /// The integer `n`.
    pub fn from_u64(n: u64) -> (d: Decimal)
        ensures
            d@ == whole(n as int),
    {
        big_from_u64(n)
    }

    /// Whether the number is zero.
    pub fn is_zero(&self) -> (b: bool)
        ensures
            b == (self@.unscaled == 0),
    {
        big_is_zero(self)
    }

    /// The number with the opposite sign.
    pub fn negated(&self) -> (d: Decimal)
        ensures
            d@ == negation(self@),
    {
        big_neg(self)
    }

    /// The sum of two numbers.
    pub fn checked_add(&self, other: &Decimal) -> (r: Option<Decimal>)
        ensures
            decimal_option_view(r) == sum_model(self@, other@),
    {
        if self.in_range() && other.in_range() {
            Some(big_add(self, other))
        } else {
            None
        }
    }

    /// The difference of two numbers.
    pub fn checked_sub(&self, other: &Decimal) -> (r: Option<Decimal>)
        ensures
            decimal_option_view(r) == difference_model(self@, other@),
    {
        if self.in_range() && other.in_range() {
            Some(big_sub(self, other))
        } else {
            None
        }
    }

    /// The product of two numbers.
    pub fn checked_mul(&self, other: &Decimal) -> (r: Option<Decimal>)
        ensures
            decimal_option_view(r) == product_model(self@, other@),
    {
        if self.in_range() && other.in_range() {
            Some(big_mul(self, other))
        } else {
            None
        }
    }

    /// The quotient of two numbers.
    pub fn checked_div(&self, other: &Decimal) -> (r: Result<Decimal, ArithmeticError>)
        ensures
            decimal_result_view(r) == quotient_model(self@, other@),
    {
        if !(self.in_range() && other.in_range()) {
            Err(ArithmeticError::OutOfRange)
        } else if other.is_zero() {
            Err(ArithmeticError::DivisionByZero)
        } else {
            Ok(big_div(self, other))
        }
    }

    /// The remainder of the division of two numbers, with the sign of the dividend.
    pub fn checked_rem(&self, other: &Decimal) -> (r: Result<Decimal, ArithmeticError>)
        ensures
            decimal_result_view(r) == remainder_model(self@, other@),
    {
        if !(self.in_range() && other.in_range()) {
            Err(ArithmeticError::OutOfRange)
        } else if other.is_zero() {
            Err(ArithmeticError::DivisionByZero)
        } else {
            Ok(big_rem(self, other))
        }
    }

    /// The reciprocal of the number.
    pub fn checked_inverse(&self) -> (r: Option<Decimal>)
        ensures
            decimal_option_view(r) == inverse_model(self@),
    {
        if self.in_range() {
            Some(big_inverse(self))
        } else {
            None
        }
    }

    /// The number to the integer power `n`, by repeated multiplication.
    pub fn checked_pow(&self, n: i64) -> (r: Option<Decimal>)
        ensures
            decimal_option_view(r) == power_model(self@, n as int),
    {
        let count: u64 = if n >= 0 {
            n as u64
        } else if n == i64::MIN {
            0x8000_0000_0000_0000u64
        } else {
            (-n) as u64
        };
        assert(count == magnitude(n as int));
        let mut res = Decimal::from_u64(1);
        let mut i: u64 = 0;
        while i < count
            invariant
                i <= count,
                count == magnitude(n as int),
                repeated_product(self@, i as nat) == Some(res@),
            decreases count - i,
        {
            match res.checked_mul(self) {
                Some(next) => {
                    res = next;
                },
                None => {
                    proof {
                        assert(repeated_product(self@, (i + 1) as nat) is None);
                        lemma_repeated_product_stays_none(self@, (i + 1) as nat, count as nat);
                    }
                    return None;
                },
            }
            i += 1;
        }
        if n < 0 {
            res.checked_inverse()
        } else {
            Some(res)
        }
    }

    /// The value of the number as an `i64`, where it is an integer that fits.
    pub fn to_integer(&self) -> (r: Option<i64>)
        ensures
            r == integer_model(self@),
    {
        if self.in_range() && big_is_integer(self) {
            big_to_i64(self)
        } else {
            None
        }
    }
}

impl Clone for Decimal {
    fn clone(&self) -> (d: Decimal)
        ensures
            d@ == self@,
            d.digits()@ == self.digits()@,
            d.scale() == self.scale(),
    {
        let mut digits: Vec<u8> = Vec::new();
        let mut i: usize = 0;
        while i < self.digits.len()
            invariant
                i <= self.digits.len(),
                digits@ == self.digits@.take(i as int),
            decreases self.digits.len() - i,
        {
            digits.push(self.digits[i]);
            assert(self.digits@.take(i + 1) == self.digits@.take(i as int).push(self.digits@[i as int]));
            i += 1;
        }
        assert(self.digits@.take(self.digits@.len() as int) == self.digits@);
        Decimal { digits, scale: self.scale }
    }
}

/// The view of a number that may be missing.
pub open spec fn decimal_option_view(r: Option<Decimal>) -> Option<DecimalView> {
    match r {
        Some(d) => Some(d@),
        None => None,
    }
}

/// The view of a number or the reason why there is none.
pub open spec fn decimal_result_view(r: Result<Decimal, ArithmeticError>) -> Result<
    DecimalView,
    ArithmeticError,
> {
    match r {
        Ok(d) => Ok(d@),
        Err(e) => Err(e),
    }
}

} // verus!

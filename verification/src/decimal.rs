//! Decimal numbers as the `rust_decimal` crate represents them: a mantissa of at
//! most 96 bits and a scale of at most 28 decimal places. The value of a decimal
//! is `mantissa / 10^scale`. Arithmetic is carried out by `rust_decimal`.

use vstd::prelude::*;

verus! {

/// `10^n`.
pub open spec fn pow10(n: nat) -> int
    decreases n,
{
    if n == 0 {
        1
    } else {
        10 * pow10((n - 1) as nat)
    }
}

/// The largest magnitude of a mantissa: `2^96 - 1`.
pub const MAX_MANTISSA: i128 = 79228162514264337593543950335;

/// The largest number of decimal places.
pub const MAX_SCALE: u32 = 28;

/// A pair `(mantissa, scale)` that a decimal can hold.
pub open spec fn valid(v: (int, nat)) -> bool {
    -MAX_MANTISSA <= v.0 <= MAX_MANTISSA && v.1 <= MAX_SCALE
}

/// Both pairs denote the same number.
pub open spec fn same_value(a: (int, nat), b: (int, nat)) -> bool {
    a.0 * pow10(b.1) == b.0 * pow10(a.1)
}

/// `a` denotes a smaller number than `b`.
pub open spec fn less_value(a: (int, nat), b: (int, nat)) -> bool {
    a.0 * pow10(b.1) < b.0 * pow10(a.1)
}

pub open spec fn max_scale(a: (int, nat), b: (int, nat)) -> nat {
    if a.1 >= b.1 {
        a.1
    } else {
        b.1
    }
}

/// `a + b` written at the larger of the two scales.
pub open spec fn aligned_sum(a: (int, nat), b: (int, nat)) -> (int, nat) {
    let s = max_scale(a, b);
    (a.0 * pow10((s - a.1) as nat) + b.0 * pow10((s - b.1) as nat), s)
}

/// The sum of two pairs where `rust_decimal` adds them exactly: a zero operand
/// gives the other one, else the exact sum at the larger scale.
pub open spec fn exact_add(a: (int, nat), b: (int, nat)) -> (int, nat) {
    if a.0 == 0 {
        b
    } else if b.0 == 0 {
        a
    } else {
        aligned_sum(a, b)
    }
}

/// `rust_decimal` adds the two exactly: one of them is zero, or their exact sum at
/// the larger scale has a valid mantissa.
pub open spec fn add_fits(a: (int, nat), b: (int, nat)) -> bool {
    a.0 == 0 || b.0 == 0 || valid(aligned_sum(a, b))
}

/// `a - b` written at the larger of the two scales.
pub open spec fn aligned_difference(a: (int, nat), b: (int, nat)) -> (int, nat) {
    let s = max_scale(a, b);
    (a.0 * pow10((s - a.1) as nat) - b.0 * pow10((s - b.1) as nat), s)
}

/// Rounding to `dp` decimal places, a midpoint away from zero.
pub open spec fn round_half_away(v: (int, nat), dp: nat) -> (int, nat) {
    if v.1 <= dp {
        v
    } else {
        let unit = pow10((v.1 - dp) as nat);
        let magnitude = if v.0 < 0 { -v.0 } else { v.0 };
        let q = magnitude / unit;
        let r = if 2 * (magnitude % unit) >= unit { q + 1 } else { q };
        (if v.0 < 0 { -r } else { r }, dp)
    }
}

/// The pair with trailing zeros of the fraction stripped; zero becomes `(0, 0)`.
pub open spec fn normal_form(v: (int, nat)) -> (int, nat)
    decreases v.1,
{
    if v.0 == 0 {
        (0, 0)
    } else if v.1 == 0 || v.0 % 10 != 0 {
        v
    } else {
        normal_form((v.0 / 10, (v.1 - 1) as nat))
    }
}

/// `10^(a + b) == 10^a * 10^b`.
pub proof fn lemma_pow10_add(a: nat, b: nat)
    ensures
        pow10(a + b) == pow10(a) * pow10(b),
    decreases a,
{
    if a > 0 {
        lemma_pow10_add((a - 1) as nat, b);
        assert(pow10(a + b) == 10 * pow10((a - 1 + b) as nat));
        assert(10 * (pow10((a - 1) as nat) * pow10(b)) == (10 * pow10((a - 1) as nat)) * pow10(b)) by (nonlinear_arith);
    }
}

/// A mantissa written at a larger scale denotes the same number.
pub proof fn lemma_rescale_same_value(m: int, scale: nat, larger: nat)
    requires
        scale <= larger,
    ensures
        same_value((m * pow10((larger - scale) as nat), larger), (m, scale)),
{
    lemma_pow10_add((larger - scale) as nat, scale);
    assert(m * pow10((larger - scale) as nat) * pow10(scale) == m * (pow10((larger - scale) as nat) * pow10(scale))) by (nonlinear_arith);
}

/// The normal form of a number is its own normal form, and does not raise the scale.
pub proof fn lemma_normal_form_idempotent(v: (int, nat))
    ensures
        normal_form(normal_form(v)) == normal_form(v),
        normal_form(v).1 <= v.1,
    decreases v.1,
{
    if v.0 == 0 {
    } else if v.1 == 0 || v.0 % 10 != 0 {
    } else {
        lemma_normal_form_idempotent((v.0 / 10, (v.1 - 1) as nat));
    }
}

/// `10^n` is positive.
pub proof fn lemma_pow10_positive(n: nat)
    ensures
        pow10(n) > 0,
    decreases n,
{
    if n > 0 {
        lemma_pow10_positive((n - 1) as nat);
    }
}

/// Stripping trailing zeros keeps the sign.
pub proof fn lemma_normal_form_sign(v: (int, nat))
    ensures
        normal_form(v).0 > 0 <==> v.0 > 0,
        normal_form(v).0 < 0 <==> v.0 < 0,
    decreases v.1,
{
    if v.0 != 0 && v.1 != 0 && v.0 % 10 == 0 {
        lemma_normal_form_sign((v.0 / 10, (v.1 - 1) as nat));
    }
}

/// The mantissa of `v` written at the scale `n` (not below `v`'s own scale).
pub open spec fn value_at(v: (int, nat), n: nat) -> int {
    v.0 * pow10((n - v.1) as nat)
}

/// A pair written at scale `s` and then at a larger scale `n` is the pair written
/// at `n`.
proof fn lemma_rescale_twice(m: int, scale: nat, s: nat, n: nat)
    requires
        scale <= s <= n,
    ensures
        m * pow10((s - scale) as nat) * pow10((n - s) as nat) == m * pow10((n - scale) as nat),
{
    lemma_pow10_add((s - scale) as nat, (n - s) as nat);
    assert(m * pow10((s - scale) as nat) * pow10((n - s) as nat)
        == m * (pow10((s - scale) as nat) * pow10((n - s) as nat))) by (nonlinear_arith);
}

/// At a scale that holds both scales, the aligned sum and difference are the sum and
/// the difference of the operands.
pub proof fn lemma_value_at_aligned(a: (int, nat), b: (int, nat), n: nat)
    requires
        max_scale(a, b) <= n,
    ensures
        value_at(aligned_sum(a, b), n) == value_at(a, n) + value_at(b, n),
        value_at(aligned_difference(a, b), n) == value_at(a, n) - value_at(b, n),
{
    let s = max_scale(a, b);
    let x = a.0 * pow10((s - a.1) as nat);
    let y = b.0 * pow10((s - b.1) as nat);
    let p = pow10((n - s) as nat);
    lemma_rescale_twice(a.0, a.1, s, n);
    lemma_rescale_twice(b.0, b.1, s, n);
    assert((x + y) * p == x * p + y * p) by (nonlinear_arith);
    assert((x - y) * p == x * p - y * p) by (nonlinear_arith);
}

/// At a scale of at least the two scales together, comparing the mantissas written
/// there compares the numbers.
pub proof fn lemma_value_at_less(a: (int, nat), b: (int, nat), n: nat)
    requires
        a.1 + b.1 <= n,
    ensures
        less_value(a, b) <==> value_at(a, n) < value_at(b, n),
{
    let k = (n - a.1 - b.1) as nat;
    lemma_rescale_twice(a.0, a.1, a.1 + b.1, n);
    lemma_rescale_twice(b.0, b.1, a.1 + b.1, n);
    lemma_pow10_positive(k);
    assert(((a.1 + b.1) - a.1) as nat == b.1);
    assert(((a.1 + b.1) - b.1) as nat == a.1);
    let x = a.0 * pow10(b.1);
    let y = b.0 * pow10(a.1);
    let p = pow10(k);
    assert(x < y <==> x * p < y * p) by (nonlinear_arith)
        requires
            p > 0;
}

/// What `rust_decimal::Decimal::checked_add` returns for two decimals.
pub uninterp spec fn decimal_checked_add(a: (int, nat), b: (int, nat)) -> Option<(int, nat)>;

/// What `rust_decimal::Decimal::checked_sub` returns for two decimals.
pub uninterp spec fn decimal_checked_sub(a: (int, nat), b: (int, nat)) -> Option<(int, nat)>;

/// What `rust_decimal::Decimal::checked_mul` returns for two decimals.
pub uninterp spec fn decimal_checked_mul(a: (int, nat), b: (int, nat)) -> Option<(int, nat)>;

/// What `rust_decimal::Decimal::checked_div` returns for two decimals.
pub uninterp spec fn decimal_checked_div(a: (int, nat), b: (int, nat)) -> Option<(int, nat)>;

/// What `<rust_decimal::Decimal as FromStr>::from_str` returns for a text.
pub uninterp spec fn decimal_from_str(s: Seq<char>) -> Option<(int, nat)>;

/// A decimal number.
#[derive(Clone, Copy, Debug)]
pub struct Decimal {
    mantissa: i128,
    scale: u32,
}

impl View for Decimal {
    type V = (int, nat);

    closed spec fn view(&self) -> (int, nat) {
        (self.mantissa as int, self.scale as nat)
    }
}

/// The view of an optional decimal.
pub open spec fn option_view(d: Option<Decimal>) -> Option<(int, nat)> {
    match d {
        Some(d) => Some(d@),
        None => None,
    }
}

impl Decimal {
    #[verifier::type_invariant]
    pub open spec fn is_valid(self) -> bool {
        valid(self@)
    }

    /// The decimal `mantissa / 10^scale`, if `rust_decimal` can hold it.
    pub fn new(mantissa: i128, scale: u32) -> (r: Option<Decimal>)
        ensures
            r is Some <==> valid((mantissa as int, scale as nat)),
            r matches Some(d) ==> d@ == (mantissa as int, scale as nat),
    {
        if -MAX_MANTISSA <= mantissa && mantissa <= MAX_MANTISSA && scale <= MAX_SCALE {
            Some(Decimal { mantissa, scale })
        } else {
            None
        }
    }

    /// The integer `value`.
    pub fn from_int(value: i64) -> (r: Decimal)
        ensures
            r@ == (value as int, 0nat),
    {
        Decimal { mantissa: value as i128, scale: 0 }
    }

    pub fn zero() -> (r: Decimal)
        ensures
            r@ == (0int, 0nat),
    {
        Decimal { mantissa: 0, scale: 0 }
    }

    /// The number one, written without a fraction.
    pub closed spec fn unit() -> Decimal {
        Decimal { mantissa: 1, scale: 0 }
    }

    pub fn one() -> (r: Decimal)
        ensures
            r == Decimal::unit(),
            r@ == (1int, 0nat),
    {
        Decimal { mantissa: 1, scale: 0 }
    }

    pub fn mantissa(&self) -> (r: i128)
        ensures
            r == self@.0,
            -MAX_MANTISSA <= r <= MAX_MANTISSA,
    {
        proof {
            use_type_invariant(self);
        }
        self.mantissa
    }

    pub fn scale(&self) -> (r: u32)
        ensures
            r == self@.1,
            r <= MAX_SCALE,
    {
        proof {
            use_type_invariant(self);
        }
        self.scale
    }

    pub fn is_zero(&self) -> (r: bool)
        ensures
            r == (self@.0 == 0),
    {
        self.mantissa == 0
    }

    pub fn is_positive(&self) -> (r: bool)
        ensures
            r == (self@.0 > 0),
    {
        self.mantissa > 0
    }

    pub fn is_negative(&self) -> (r: bool)
        ensures
            r == (self@.0 < 0),
    {
        self.mantissa < 0
    }

    /// The number with the opposite sign.
    pub fn neg(&self) -> (r: Decimal)
        ensures
            r@ == (-self@.0, self@.1),
    {
        proof {
            use_type_invariant(self);
        }
        Decimal { mantissa: -self.mantissa, scale: self.scale }
    }

    /// `rust_decimal::Decimal::checked_add`: `None` on overflow. Where the first operand
    /// is zero the result is the second one, else where the second is zero the first
    /// one; where neither is zero and the exact sum at the larger scale has a valid
    /// mantissa, the sum is exactly that.
    #[verifier::external_body]
    fn checked_add_by_rust_decimal(self, other: Decimal) -> (r: Option<Decimal>)
        ensures
            option_view(r) == decimal_checked_add(self@, other@),
            self@.0 == 0 ==> r == Some(other),
            self@.0 != 0 && other@.0 == 0 ==> r == Some(self),
            self@.0 != 0 && other@.0 != 0 && valid(aligned_sum(self@, other@)) ==> r is Some && r.unwrap()@ == aligned_sum(self@, other@),
    {
        let a = rust_decimal::Decimal::from_i128_with_scale(self.mantissa, self.scale);
        let b = rust_decimal::Decimal::from_i128_with_scale(other.mantissa, other.scale);
        match a.checked_add(b) {
            Some(s) => Some(Decimal { mantissa: s.mantissa(), scale: s.scale() }),
            None => None,
        }
    }

    /// `rust_decimal::Decimal::checked_add`: `None` on overflow. Where the first operand
    /// is zero the result is the second one, else where the second is zero the first
    /// one; where neither is zero and the exact sum at the larger scale has a valid
    /// mantissa, the sum is exactly that.
    pub fn checked_add(self, other: Decimal) -> (r: Option<Decimal>)
        ensures
            option_view(r) == decimal_checked_add(self@, other@),
            self@.0 == 0 ==> r == Some(other),
            self@.0 != 0 && other@.0 == 0 ==> r == Some(self),
            self@.0 != 0 && other@.0 != 0 && valid(aligned_sum(self@, other@)) ==> r is Some && r.unwrap()@ == aligned_sum(self@, other@),
            add_fits(self@, other@) ==> r is Some && r.unwrap()@ == exact_add(self@, other@),
    {
        self.checked_add_by_rust_decimal(other)
    }

    /// `rust_decimal::Decimal::checked_sub`: `None` on overflow. Subtracting from zero
    /// gives the negated subtrahend, else subtracting zero the minuend; a number less
    /// itself (the same mantissa and scale) is zero at its scale; where neither is
    /// zero and the exact difference at the larger scale has a valid mantissa, the
    /// difference is exactly that.
    #[verifier::external_body]
    fn checked_sub_by_rust_decimal(self, other: Decimal) -> (r: Option<Decimal>)
        ensures
            option_view(r) == decimal_checked_sub(self@, other@),
            self@.0 == 0 ==> r is Some && r.unwrap()@ == (-other@.0, other@.1),
            self@.0 != 0 && other@.0 == 0 ==> r == Some(self),
            self@ == other@ ==> r is Some && r.unwrap()@ == (0int, self@.1),
            self@.0 != 0 && other@.0 != 0 && valid(aligned_difference(self@, other@)) ==> r is Some && r.unwrap()@ == aligned_difference(self@, other@),
    {
        let a = rust_decimal::Decimal::from_i128_with_scale(self.mantissa, self.scale);
        let b = rust_decimal::Decimal::from_i128_with_scale(other.mantissa, other.scale);
        match a.checked_sub(b) {
            Some(s) => Some(Decimal { mantissa: s.mantissa(), scale: s.scale() }),
            None => None,
        }
    }

    /// `rust_decimal::Decimal::checked_sub`: `None` on overflow. Subtracting from zero
    /// gives the negated subtrahend, else subtracting zero the minuend; a number less
    /// itself (the same mantissa and scale) is zero at its scale; where neither is
    /// zero and the exact difference at the larger scale has a valid mantissa, the
    /// difference is exactly that.
    pub fn checked_sub(self, other: Decimal) -> (r: Option<Decimal>)
        ensures
            option_view(r) == decimal_checked_sub(self@, other@),
            self@.0 == 0 ==> r is Some && r.unwrap()@ == (-other@.0, other@.1),
            self@.0 != 0 && other@.0 == 0 ==> r == Some(self),
            self@ == other@ ==> r is Some && r.unwrap()@ == (0int, self@.1),
            self@.0 != 0 && other@.0 != 0 && valid(aligned_difference(self@, other@)) ==> r is Some && r.unwrap()@ == aligned_difference(self@, other@),
    {
        self.checked_sub_by_rust_decimal(other)
    }

    /// `rust_decimal::Decimal::checked_mul`: `None` on overflow. The product does not
    /// depend on the order of the operands. A zero operand gives zero (with no
    /// fraction); where neither is zero, the scales add up to at most 28 and the
    /// product of the mantissas is a valid mantissa, the product is exactly that.
    #[verifier::external_body]
    fn checked_mul_by_rust_decimal(self, other: Decimal) -> (r: Option<Decimal>)
        ensures
            option_view(r) == decimal_checked_mul(self@, other@),
            option_view(r) == decimal_checked_mul(other@, self@),
            self@.0 == 0 || other@.0 == 0 ==> r is Some && r.unwrap()@ == (0int, 0nat),
            self@.0 != 0 && other@.0 != 0 && valid((self@.0 * other@.0, self@.1 + other@.1)) ==> r is Some && r.unwrap()@ == (self@.0 * other@.0, self@.1 + other@.1),
    {
        let a = rust_decimal::Decimal::from_i128_with_scale(self.mantissa, self.scale);
        let b = rust_decimal::Decimal::from_i128_with_scale(other.mantissa, other.scale);
        match a.checked_mul(b) {
            Some(p) => Some(Decimal { mantissa: p.mantissa(), scale: p.scale() }),
            None => None,
        }
    }

    /// `rust_decimal::Decimal::checked_mul`: `None` on overflow. The product does not
    /// depend on the order of the operands. A zero operand gives zero (with no
    /// fraction); where neither is zero, the scales add up to at most 28 and the
    /// product of the mantissas is a valid mantissa, the product is exactly that.
    pub fn checked_mul(self, other: Decimal) -> (r: Option<Decimal>)
        ensures
            option_view(r) == decimal_checked_mul(self@, other@),
            option_view(r) == decimal_checked_mul(other@, self@),
            self@.0 == 0 || other@.0 == 0 ==> r is Some && r.unwrap()@ == (0int, 0nat),
            self@.0 != 0 && other@.0 != 0 && valid((self@.0 * other@.0, self@.1 + other@.1)) ==> r is Some && r.unwrap()@ == (self@.0 * other@.0, self@.1 + other@.1),
    {
        self.checked_mul_by_rust_decimal(other)
    }

    /// `rust_decimal::Decimal::checked_div`: `None` on overflow and on a zero divisor;
    /// zero divided by a number that is not zero is zero (with no fraction).
    #[verifier::external_body]
    fn checked_div_by_rust_decimal(self, other: Decimal) -> (r: Option<Decimal>)
        ensures
            option_view(r) == decimal_checked_div(self@, other@),
            other@.0 == 0 ==> r is None,
            self@.0 == 0 && other@.0 != 0 ==> r is Some && r.unwrap()@ == (0int, 0nat),
    {
        let a = rust_decimal::Decimal::from_i128_with_scale(self.mantissa, self.scale);
        let b = rust_decimal::Decimal::from_i128_with_scale(other.mantissa, other.scale);
        match a.checked_div(b) {
            Some(q) => Some(Decimal { mantissa: q.mantissa(), scale: q.scale() }),
            None => None,
        }
    }

    /// `rust_decimal::Decimal::checked_div`: `None` on overflow and on a zero divisor;
    /// zero divided by a number that is not zero is zero (with no fraction).
    pub fn checked_div(self, other: Decimal) -> (r: Option<Decimal>)
        ensures
            option_view(r) == decimal_checked_div(self@, other@),
            other@.0 == 0 ==> r is None,
            self@.0 == 0 && other@.0 != 0 ==> r is Some && r.unwrap()@ == (0int, 0nat),
    {
        self.checked_div_by_rust_decimal(other)
    }

    /// `==` of `rust_decimal::Decimal`, which compares the numbers.
    #[verifier::external_body]
    fn equals_by_rust_decimal(&self, other: &Decimal) -> (r: bool)
        ensures
            r == same_value(self@, other@),
    {
        rust_decimal::Decimal::from_i128_with_scale(self.mantissa, self.scale)
            == rust_decimal::Decimal::from_i128_with_scale(other.mantissa, other.scale)
    }

    /// `==` of `rust_decimal::Decimal`, which compares the numbers.
    pub fn equals(&self, other: &Decimal) -> (r: bool)
        ensures
            r == same_value(self@, other@),
    {
        self.equals_by_rust_decimal(other)
    }

    /// `<` of `rust_decimal::Decimal`, which compares the numbers.
    #[verifier::external_body]
    fn less_than_by_rust_decimal(&self, other: &Decimal) -> (r: bool)
        ensures
            r == less_value(self@, other@),
    {
        rust_decimal::Decimal::from_i128_with_scale(self.mantissa, self.scale)
            < rust_decimal::Decimal::from_i128_with_scale(other.mantissa, other.scale)
    }

    /// `<` of `rust_decimal::Decimal`, which compares the numbers.
    pub fn less_than(&self, other: &Decimal) -> (r: bool)
        ensures
            r == less_value(self@, other@),
    {
        self.less_than_by_rust_decimal(other)
    }

    /// `rust_decimal::Decimal::round_dp_with_strategy` with a midpoint rounded away
    /// from zero.
    #[verifier::external_body]
    fn round_dp_by_rust_decimal(&self, dp: u32) -> (r: Decimal)
        ensures
            r@ == round_half_away(self@, dp as nat),
    {
        let d = rust_decimal::Decimal::from_i128_with_scale(self.mantissa, self.scale);
        let r = d.round_dp_with_strategy(dp, rust_decimal::RoundingStrategy::MidpointAwayFromZero);
        Decimal { mantissa: r.mantissa(), scale: r.scale() }
    }

    /// `rust_decimal::Decimal::round_dp_with_strategy` with a midpoint rounded away
    /// from zero.
    pub fn round_dp(&self, dp: u32) -> (r: Decimal)
        ensures
            r@ == round_half_away(self@, dp as nat),
    {
        self.round_dp_by_rust_decimal(dp)
    }

    /// `rust_decimal::Decimal::normalize`: trailing zeros of the fraction stripped.
    #[verifier::external_body]
    fn normalize_by_rust_decimal(&self) -> (r: Decimal)
        ensures
            r@ == normal_form(self@),
    {
        let r = rust_decimal::Decimal::from_i128_with_scale(self.mantissa, self.scale).normalize();
        Decimal { mantissa: r.mantissa(), scale: r.scale() }
    }

    /// `rust_decimal::Decimal::normalize`: trailing zeros of the fraction stripped.
    pub fn normalize(&self) -> (r: Decimal)
        ensures
            r@ == normal_form(self@),
    {
        self.normalize_by_rust_decimal()
    }

    /// `<rust_decimal::Decimal as FromStr>::from_str`.
    #[verifier::external_body]
    fn parse_by_rust_decimal(text: &str) -> (r: Option<Decimal>)
        ensures
            option_view(r) == decimal_from_str(text@),
    {
        match text.parse::<rust_decimal::Decimal>() {
            Ok(d) => Some(Decimal { mantissa: d.mantissa(), scale: d.scale() }),
            Err(_) => None,
        }
    }

    /// `<rust_decimal::Decimal as FromStr>::from_str`.
    pub fn parse(text: &str) -> (r: Option<Decimal>)
        ensures
            option_view(r) == decimal_from_str(text@),
    {
        Decimal::parse_by_rust_decimal(text)
    }
}

/// Decimals are their pairs: two with the same mantissa and scale are equal.
pub proof fn lemma_view_injective(a: Decimal, b: Decimal)
    requires
        a@ == b@,
    ensures
        a == b,
{
}

/// At a scale `n` that holds both scales, the sum that `rust_decimal` computes
/// exactly is the sum of the values.
pub proof fn lemma_exact_add_value(a: (int, nat), b: (int, nat), n: nat)
    requires
        a.1 <= n,
        b.1 <= n,
    ensures
        exact_add(a, b).1 <= n,
        value_at(exact_add(a, b), n) == value_at(a, n) + value_at(b, n),
{
    if a.0 == 0 {
        let p = pow10((n - a.1) as nat);
        assert(0int * p == 0) by (nonlinear_arith);
    } else if b.0 == 0 {
        let p = pow10((n - b.1) as nat);
        assert(0int * p == 0) by (nonlinear_arith);
    } else {
        lemma_value_at_aligned(a, b, n);
    }
}

} // verus!

//! Amounts of money: a decimal amount in a currency.

use vstd::prelude::*;

use crate::decimal::{Decimal, decimal_checked_add, decimal_checked_sub, decimal_checked_div, decimal_checked_mul, normal_form, option_view, round_half_away};
use crate::error::Error;

verus! {

/// The characters of a currency code from some place on: the character at that
/// place and the characters after it.
#[derive(Clone, Copy, Debug, PartialEq, Eq, Structural)]
pub struct CodeChars {
    first: char,
    rest: Option<&'static CodeChars>,
}

/// The characters that a list of code characters holds, in order.
pub closed spec fn code_chars(chars: Option<&'static CodeChars>) -> Seq<char>
    decreases chars,
{
    match chars {
        None => Seq::empty(),
        Some(node) => seq![node.first] + code_chars(node.rest),
    }
}

/// Lists of code characters that hold the same characters are the same.
proof fn lemma_code_chars_injective(a: Option<&'static CodeChars>, b: Option<&'static CodeChars>)
    requires
        code_chars(a) == code_chars(b),
    ensures
        a == b,
    decreases a,
{
    match (a, b) {
        (Some(x), Some(y)) => {
            assert(code_chars(a)[0] == x.first);
            assert(code_chars(b)[0] == y.first);
            assert(code_chars(x.rest) =~= code_chars(a).drop_first());
            assert(code_chars(y.rest) =~= code_chars(b).drop_first());
            lemma_code_chars_injective(x.rest, y.rest);
        },
        (Some(x), None) => {
            assert(code_chars(a).len() > 0);
        },
        (None, Some(y)) => {
            assert(code_chars(b).len() > 0);
        },
        (None, None) => {},
    }
}

/// `Box::leak`: the characters kept for the rest of the program, so that a
/// currency can be copied freely.
#[verifier::external_body]
fn leak_code_chars(chars: Box<CodeChars>) -> (r: &'static CodeChars)
    ensures
        *r == *chars,
{
    Box::leak(chars)
}

/// A currency, by its code (such as the three letters of ISO 4217).
#[derive(Clone, Copy, Debug, PartialEq, Eq, Structural)]
pub struct Currency {
    code: Option<&'static CodeChars>,
}

impl View for Currency {
    type V = Seq<char>;

    closed spec fn view(&self) -> Seq<char> {
        code_chars(self.code)
    }
}

impl Currency {
    /// Currencies with the same code are the same.
    pub proof fn lemma_code_identifies(a: Currency, b: Currency)
        requires
            a@ == b@,
        ensures
            a == b,
    {
        lemma_code_chars_injective(a.code, b.code);
    }

    /// The currency whose code is `chars`.
    fn from_chars(chars: &Vec<char>) -> (r: Currency)
        ensures
            r@ == chars@,
    {
        let mut rest: Option<&'static CodeChars> = None;
        let mut i = chars.len();
        assert(code_chars(rest) =~= chars@.skip(i as int));
        while i > 0
            invariant
                i <= chars@.len(),
                code_chars(rest) =~= chars@.skip(i as int),
            decreases i,
        {
            i = i - 1;
            let node = leak_code_chars(Box::new(CodeChars { first: chars[i], rest }));
            rest = Some(node);
            assert(code_chars(rest) =~= seq![chars@[i as int]] + chars@.skip(i + 1));
            assert(chars@.skip(i as int) =~= seq![chars@[i as int]] + chars@.skip(i + 1));
        }
        Currency { code: rest }
    }

    /// The currency with the given code.
    pub fn new(code: &str) -> (r: Currency)
        ensures
            r@ == code@,
    {
        let length = code.unicode_len();
        let mut chars: Vec<char> = Vec::new();
        for i in 0..length
            invariant
                length == code@.len(),
                chars@ =~= code@.take(i as int),
        {
            chars.push(code.get_char(i));
        }
        assert(code@.take(length as int) =~= code@);
        Currency::from_chars(&chars)
    }

    /// The currency whose code is the three given letters.
    pub fn from_letters(first: char, second: char, third: char) -> (r: Currency)
        ensures
            r@ == seq![first, second, third],
    {
        let mut chars: Vec<char> = Vec::new();
        chars.push(first);
        chars.push(second);
        chars.push(third);
        assert(chars@ =~= seq![first, second, third]);
        Currency::from_chars(&chars)
    }

    /// The code of the currency.
    pub fn code(&self) -> (r: String)
        ensures
            r@ == self@,
    {
        let mut code = String::new();
        let mut node = self.code;
        assert(code@ + code_chars(node) =~= self@);
        while node.is_some()
            invariant
                code@ + code_chars(node) =~= self@,
            decreases code_chars(node).len(),
        {
            let current = node.unwrap();
            assert(code_chars(node) =~= seq![current.first] + code_chars(current.rest));
            code.push(current.first);
            node = current.rest;
        }
        code
    }

    pub fn usd() -> (r: Currency)
        ensures
            r@ == seq!['U', 'S', 'D'],
    {
        Currency::from_letters('U', 'S', 'D')
    }

    pub fn rub() -> (r: Currency)
        ensures
            r@ == seq!['R', 'U', 'B'],
    {
        Currency::from_letters('R', 'U', 'B')
    }
}

/// An amount of money.
#[derive(Clone, Copy, Debug)]
pub struct Cash {
    pub currency: Currency,
    pub amount: Decimal,
}

/// The sum of two amounts in one currency, as `rust_decimal` computes it.
pub open spec fn cash_sum(a: Cash, b: Cash) -> Result<(int, nat), Error> {
    if a.currency != b.currency {
        Err(Error::CurrencyMismatch)
    } else {
        match decimal_checked_add(a.amount@, b.amount@) {
            Some(v) => Ok(v),
            None => Err(Error::Overflow),
        }
    }
}

/// The difference of two amounts in one currency, as `rust_decimal` computes it.
pub open spec fn cash_difference(a: Cash, b: Cash) -> Result<(int, nat), Error> {
    if a.currency != b.currency {
        Err(Error::CurrencyMismatch)
    } else {
        match decimal_checked_sub(a.amount@, b.amount@) {
            Some(v) => Ok(v),
            None => Err(Error::Overflow),
        }
    }
}

/// Rounding of an amount of money: to cents, a midpoint away from zero, then
/// without trailing zeros.
pub open spec fn rounded(v: (int, nat)) -> (int, nat) {
    normal_form(round_half_away(v, 2))
}

impl Cash {
    pub fn new(currency: Currency, amount: Decimal) -> (r: Cash)
        ensures
            r.currency == currency,
            r.amount == amount,
    {
        Cash { currency, amount }
    }

    pub fn zero(currency: Currency) -> (r: Cash)
        ensures
            r.currency == currency,
            r.amount@ == (0int, 0nat),
    {
        Cash { currency, amount: Decimal::zero() }
    }

    pub fn is_zero(&self) -> (r: bool)
        ensures
            r == (self.amount@.0 == 0),
    {
        self.amount.is_zero()
    }

    pub fn is_positive(&self) -> (r: bool)
        ensures
            r == (self.amount@.0 > 0),
    {
        self.amount.is_positive()
    }

    pub fn is_negative(&self) -> (r: bool)
        ensures
            r == (self.amount@.0 < 0),
    {
        self.amount.is_negative()
    }

    /// The amount with the opposite sign.
    pub fn neg(&self) -> (r: Cash)
        ensures
            r.currency == self.currency,
            r.amount@ == (-self.amount@.0, self.amount@.1),
    {
        Cash { currency: self.currency, amount: self.amount.neg() }
    }

    /// The amount rounded to cents.
    pub fn round(&self) -> (r: Cash)
        ensures
            r.currency == self.currency,
            r.amount@ == rounded(self.amount@),
    {
        Cash { currency: self.currency, amount: self.amount.round_dp(2).normalize() }
    }

    /// The sum of two amounts in one currency.
    pub fn add(&self, other: Cash) -> (r: Result<Cash, Error>)
        ensures
            match (r, cash_sum(*self, other)) {
                (Ok(c), Ok(v)) => c.currency == self.currency && c.amount@ == v,
                (Err(e), Err(f)) => e == f,
                _ => false,
            },
            self.currency == other.currency && self.amount@.0 == 0 ==> r == Ok::<Cash, Error>(other),
    {
        if self.currency != other.currency {
            return Err(Error::CurrencyMismatch);
        }
        match self.amount.checked_add(other.amount) {
            Some(amount) => Ok(Cash { currency: self.currency, amount }),
            None => Err(Error::Overflow),
        }
    }

    /// The difference of two amounts in one currency.
    pub fn sub(&self, other: Cash) -> (r: Result<Cash, Error>)
        ensures
            match (r, cash_difference(*self, other)) {
                (Ok(c), Ok(v)) => c.currency == self.currency && c.amount@ == v,
                (Err(e), Err(f)) => e == f,
                _ => false,
            },
            self.currency == other.currency && self.amount@.0 == 0 ==> (r matches Ok(c)
                && c.amount@ == (-other.amount@.0, other.amount@.1)),
    {
        if self.currency != other.currency {
            return Err(Error::CurrencyMismatch);
        }
        match self.amount.checked_sub(other.amount) {
            Some(amount) => Ok(Cash { currency: self.currency, amount }),
            None => Err(Error::Overflow),
        }
    }

    /// The ratio of two amounts in one currency.
    pub fn div(&self, other: Cash) -> (r: Result<Decimal, Error>)
        ensures
            self.currency != other.currency ==> r == Err::<Decimal, Error>(Error::CurrencyMismatch),
            self.currency == other.currency && other.amount@.0 == 0 ==> r == Err::<Decimal, Error>(Error::DivisionByZero),
            self.currency == other.currency && other.amount@.0 != 0 ==> match (r, decimal_checked_div(self.amount@, other.amount@)) {
                (Ok(d), Some(v)) => d@ == v,
                (Err(e), None) => e == Error::Overflow,
                _ => false,
            },
    {
        if self.currency != other.currency {
            return Err(Error::CurrencyMismatch);
        }
        if other.amount.is_zero() {
            return Err(Error::DivisionByZero);
        }
        match self.amount.checked_div(other.amount) {
            Some(ratio) => Ok(ratio),
            None => Err(Error::Overflow),
        }
    }

    /// The amount multiplied by a number.
    pub fn mul(&self, factor: Decimal) -> (r: Option<Cash>)
        ensures
            option_view(match r { Some(c) => Some(c.amount), None => None }) == decimal_checked_mul(self.amount@, factor@),
            r matches Some(c) ==> c.currency == self.currency,
            factor@.0 == 0 ==> (r matches Some(c) && c.amount@ == (0int, 0nat)),
    {
        match self.amount.checked_mul(factor) {
            Some(amount) => Some(Cash { currency: self.currency, amount }),
            None => None,
        }
    }

    /// The amount divided by a number.
    pub fn div_by(&self, divisor: Decimal) -> (r: Option<Cash>)
        ensures
            option_view(match r { Some(c) => Some(c.amount), None => None }) == decimal_checked_div(self.amount@, divisor@),
            r matches Some(c) ==> c.currency == self.currency,
    {
        match self.amount.checked_div(divisor) {
            Some(amount) => Some(Cash { currency: self.currency, amount }),
            None => None,
        }
    }
}

/// Zero rounded to cents is zero with no fraction.
pub proof fn lemma_rounded_zero(v: (int, nat))
    requires
        v.0 == 0,
    ensures
        rounded(v) == (0int, 0nat),
{
    if v.1 > 2 {
        crate::decimal::lemma_pow10_positive((v.1 - 2) as nat);
    }
}

/// Rounding an amount already rounded to cents changes nothing.
pub proof fn lemma_rounding_idempotent(v: (int, nat))
    ensures
        rounded(rounded(v)) == rounded(v),
{
    crate::decimal::lemma_normal_form_idempotent(round_half_away(v, 2));
}

} // verus!

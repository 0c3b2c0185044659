//! The encoding of the primitive values of a tax statement: integers in decimal
//! digits, booleans as `0` and `1`, texts as they are, and dates as the number of
//! days since December 30, 1899.

use vstd::prelude::*;

use crate::error::Error;
use crate::time::{day_number, Date, MAX_DAYS, MIN_DAYS};

verus! {

/// `String::push`: appends the character to the end of the string.
pub assume_specification[ String::push ](string: &mut String, ch: char)
    ensures
        final(string)@ == old(string)@.push(ch),
;

pub open spec fn is_digit(c: char) -> bool {
    '0' <= c <= '9'
}

pub open spec fn digit_value(c: char) -> int {
    c as int - '0' as int
}

/// The character of a decimal digit.
pub open spec fn digit_char(d: int) -> char {
    if d == 0 { '0' } else if d == 1 { '1' } else if d == 2 { '2' } else if d == 3 { '3' }
    else if d == 4 { '4' } else if d == 5 { '5' } else if d == 6 { '6' } else if d == 7 { '7' }
    else if d == 8 { '8' } else { '9' }
}

pub open spec fn all_digits(s: Seq<char>) -> bool {
    forall|i: int| 0 <= i < s.len() ==> is_digit(#[trigger] s[i])
}

/// The number that a sequence of decimal digits writes.
pub open spec fn digits_value(s: Seq<char>) -> int
    decreases s.len(),
{
    if s.len() == 0 {
        0
    } else {
        digits_value(s.drop_last()) * 10 + digit_value(s.last())
    }
}

/// The number that a text writes as digits, if it is one or more digits.
pub open spec fn digits_text_value(s: Seq<char>) -> Option<int> {
    if s.len() > 0 && all_digits(s) {
        Some(digits_value(s))
    } else {
        None
    }
}

/// The natural number that a text writes: an optional `+` sign followed by one or
/// more decimal digits.
pub open spec fn natural_value(s: Seq<char>) -> Option<int> {
    if s.len() > 0 && s[0] == '+' {
        digits_text_value(s.drop_first())
    } else {
        digits_text_value(s)
    }
}

/// The integer that a text writes: an optional `+` or `-` sign followed by one or
/// more decimal digits.
pub open spec fn integer_value(s: Seq<char>) -> Option<int> {
    if s.len() > 0 && s[0] == '-' {
        match digits_text_value(s.drop_first()) {
            Some(v) => Some(-v),
            None => None,
        }
    } else {
        natural_value(s)
    }
}

/// The decimal digits of a natural number, without leading zeros.
pub open spec fn decimal_text(n: nat) -> Seq<char>
    decreases n,
{
    if n < 10 {
        seq![digit_char(n as int)]
    } else {
        decimal_text(n / 10).push(digit_char(n as int % 10))
    }
}

/// The decimal text of an integer: a `-` sign before the digits of a negative one.
pub open spec fn integer_text(n: int) -> Seq<char> {
    if n < 0 {
        seq!['-'] + decimal_text((-n) as nat)
    } else {
        decimal_text(n as nat)
    }
}

/// The day number of December 30, 1899: a date is encoded as the number of days
/// since that day.
pub const BASE_DAY_NUMBER: i64 = 693594;

pub proof fn lemma_base_day_number()
    ensures
        day_number(1899, 12, 30) == BASE_DAY_NUMBER,
{
}

proof fn lemma_digits_value_nonnegative(s: Seq<char>)
    requires
        all_digits(s),
    ensures
        digits_value(s) >= 0,
    decreases s.len(),
{
    if s.len() > 0 {
        lemma_digits_value_nonnegative(s.drop_last());
    }
}

/// A prefix of digits writes at most the number of the whole.
proof fn lemma_digits_value_prefix(s: Seq<char>, k: int)
    requires
        all_digits(s),
        0 <= k <= s.len(),
    ensures
        digits_value(s.take(k)) <= digits_value(s),
    decreases s.len() - k,
{
    if k < s.len() {
        lemma_digits_value_prefix(s, k + 1);
        assert(s.take(k + 1).drop_last() =~= s.take(k));
        lemma_digits_value_nonnegative(s.take(k));
    } else {
        assert(s.take(k) =~= s);
    }
}

proof fn lemma_digit_char(d: int)
    requires
        0 <= d < 10,
    ensures
        is_digit(digit_char(d)),
        digit_value(digit_char(d)) == d,
{
}

/// A natural number written in a text is not negative.
pub proof fn lemma_natural_value_nonnegative(s: Seq<char>)
    ensures
        natural_value(s) matches Some(v) ==> v >= 0,
        s.len() > 0 && s[0] == '-' ==> (digits_text_value(s.drop_first()) matches Some(v) ==> v >= 0),
{
    if s.len() > 0 && s[0] == '+' {
        if digits_text_value(s.drop_first()) is Some {
            lemma_digits_value_nonnegative(s.drop_first());
        }
    } else if digits_text_value(s) is Some {
        lemma_digits_value_nonnegative(s);
    }
    if s.len() > 0 && digits_text_value(s.drop_first()) is Some {
        lemma_digits_value_nonnegative(s.drop_first());
    }
}

/// The digits of a number write that number.
pub proof fn lemma_decimal_text(n: nat)
    ensures
        decimal_text(n).len() > 0,
        all_digits(decimal_text(n)),
        digits_value(decimal_text(n)) == n,
    decreases n,
{
    lemma_digit_char(n as int % 10);
    if n >= 10 {
        lemma_decimal_text(n / 10);
        let s = decimal_text(n);
        assert(s.drop_last() =~= decimal_text(n / 10));
        assert(s.last() == digit_char(n as int % 10));
        assert(digits_value(s) == digits_value(decimal_text(n / 10)) * 10 + (n as int % 10));
        assert forall|i: int| 0 <= i < s.len() implies is_digit(#[trigger] s[i]) by {
            if i < s.len() - 1 {
                assert(s[i] == decimal_text(n / 10)[i]);
            }
        }
    } else {
        let s = decimal_text(n);
        assert(s.drop_last() =~= Seq::<char>::empty());
        assert(digits_value(s.drop_last()) == 0);
        assert(s.last() == digit_char(n as int));
    }
}

/// Reading the text of a natural number gives the number back.
pub proof fn lemma_natural_text_roundtrip(n: nat)
    ensures
        natural_value(decimal_text(n)) == Some(n as int),
        integer_value(decimal_text(n)) == Some(n as int),
{
    lemma_decimal_text(n);
}

/// Reading the text of an integer gives the integer back.
pub proof fn lemma_integer_text_roundtrip(n: int)
    ensures
        integer_value(integer_text(n)) == Some(n),
{
    lemma_decimal_text((if n < 0 { -n } else { n }) as nat);
    if n < 0 {
        assert((seq!['-'] + decimal_text((-n) as nat)).drop_first() =~= decimal_text((-n) as nat));
    }
}

/// The digits of `text`, if it is one or more decimal digits that write a number
/// not above `u64::MAX`.
pub fn parse_digits(text: &str) -> (r: Option<u64>)
    ensures
        r == (match digits_text_value(text@) {
            Some(v) => if v <= u64::MAX { Some(v as u64) } else { None },
            None => None,
        }),
{
    let length = text.unicode_len();
    if length == 0 {
        return None;
    }
    let mut value: u64 = 0;
    for i in 0..length
        invariant
            length == text@.len(),
            all_digits(text@.take(i as int)),
            value == digits_value(text@.take(i as int)),
    {
        let c = text.get_char(i);
        proof {
            assert(text@.take(i + 1).drop_last() =~= text@.take(i as int));
            assert(text@.take(i + 1).last() == c);
        }
        if !('0' <= c && c <= '9') {
            return None;
        }
        let digit = (c as u32 - '0' as u32) as u64;
        if value > (u64::MAX - digit) / 10 {
            proof {
                assert(all_digits(text@.take(i + 1)));
                if all_digits(text@) {
                    lemma_digits_value_prefix(text@, i + 1);
                }
            }
            return None;
        }
        value = value * 10 + digit;
        assert(all_digits(text@.take(i + 1)));
    }
    assert(text@.take(length as int) =~= text@);
    Some(value)
}

/// The natural number that `text` writes, if it is not above `u64::MAX`.
pub fn parse_natural(text: &str) -> (r: Option<u64>)
    ensures
        r == (match natural_value(text@) {
            Some(v) => if v <= u64::MAX { Some(v as u64) } else { None },
            None => None,
        }),
{
    let length = text.unicode_len();
    if length > 0 && text.get_char(0) == '+' {
        let digits = text.substring_char(1, length);
        assert(digits@ =~= text@.drop_first());
        parse_digits(digits)
    } else {
        parse_digits(text)
    }
}

/// The integer that `text` writes, if it lies between `i64::MIN` and `i64::MAX`.
pub fn parse_integer(text: &str) -> (r: Option<i64>)
    ensures
        r == (match integer_value(text@) {
            Some(v) => if i64::MIN <= v <= i64::MAX { Some(v as i64) } else { None },
            None => None,
        }),
{
    proof {
        lemma_natural_value_nonnegative(text@);
    }
    let length = text.unicode_len();
    if length > 0 && text.get_char(0) == '-' {
        let digits = text.substring_char(1, length);
        assert(digits@ =~= text@.drop_first());
        match parse_digits(digits) {
            Some(magnitude) => {
                if magnitude <= 9223372036854775808u64 {
                    Some((0i128 - magnitude as i128) as i64)
                } else {
                    None
                }
            },
            None => {
                proof {
                    if let Some(v) = digits_text_value(digits@) {
                        lemma_digits_value_nonnegative(digits@);
                    }
                }
                None
            },
        }
    } else {
        match parse_natural(text) {
            Some(value) => {
                if value <= 9223372036854775807u64 {
                    Some(value as i64)
                } else {
                    None
                }
            },
            None => {
                proof {
                    if let Some(v) = natural_value(text@) {
                        if text@.len() > 0 && text@[0] == '+' {
                            lemma_digits_value_nonnegative(text@.drop_first());
                        } else {
                            lemma_digits_value_nonnegative(text@);
                        }
                    }
                }
                None
            },
        }
    }
}

fn digit_to_char(d: u64) -> (r: char)
    requires
        d < 10,
    ensures
        r == digit_char(d as int),
{
    if d == 0 { '0' } else if d == 1 { '1' } else if d == 2 { '2' } else if d == 3 { '3' }
    else if d == 4 { '4' } else if d == 5 { '5' } else if d == 6 { '6' } else if d == 7 { '7' }
    else if d == 8 { '8' } else { '9' }
}

/// Appends the decimal digits of `n` to `buffer`.
pub fn push_natural(buffer: &mut String, n: u64)
    ensures
        final(buffer)@ == old(buffer)@ + decimal_text(n as nat),
    decreases n,
{
    if n >= 10 {
        push_natural(buffer, n / 10);
    }
    buffer.push(digit_to_char(n % 10));
    assert(decimal_text(n as nat) =~= if n < 10 { seq![digit_char(n as int)] } else { decimal_text((n / 10) as nat).push(digit_char(n as int % 10)) });
}

/// Appends the decimal text of `n` to `buffer`.
pub fn push_integer(buffer: &mut String, n: i64)
    ensures
        final(buffer)@ == old(buffer)@ + integer_text(n as int),
{
    if n < 0 {
        buffer.push('-');
        let magnitude = (0i128 - n as i128) as u64;
        push_natural(buffer, magnitude);
        assert(final(buffer)@ =~= old(buffer)@ + integer_text(n as int));
    } else {
        push_natural(buffer, n as u64);
    }
}

/// A value of a tax statement that is read and written as one field.
pub trait TaxStatementType: Sized {
    /// The value that the field `data` holds.
    fn read(data: &str) -> Result<Self, Error>;

    /// Appends the field of the value to `buffer`.
    fn write(&self, buffer: &mut String) -> Result<(), Error>;
}

/// A primitive value of a tax statement.
pub trait TaxStatementPrimitiveType: Sized {
    /// The value that the text `data` encodes.
    fn decode(data: &str) -> Result<Self, Error>;

    /// Appends the text of the value to `buffer`.
    fn encode(&self, buffer: &mut String) -> Result<(), Error>;
}

/// The text `data` is not the encoding of a value.
pub open spec fn invalid_value<T>(r: Result<T, Error>, data: Seq<char>) -> bool {
    r matches Err(Error::InvalidValue(text)) && text@ == data
}

/// The number that a text of a `usize` writes: a natural number not above
/// `usize::MAX`.
pub open spec fn natural_text_usize(data: Seq<char>) -> Option<usize> {
    match natural_value(data) {
        Some(v) => if v <= usize::MAX { Some(v as usize) } else { None },
        None => None,
    }
}

impl TaxStatementPrimitiveType for usize {
    /// The natural number in decimal digits, with an optional `+` sign.
    fn decode(data: &str) -> (r: Result<usize, Error>)
        ensures
            natural_text_usize(data@) matches Some(v) ==> r == Ok::<usize, Error>(v),
            natural_text_usize(data@) is None ==> invalid_value(r, data@),
    {
        proof {
            lemma_natural_value_nonnegative(data@);
        }
        match parse_natural(data) {
            Some(value) => {
                if value <= usize::MAX as u64 {
                    Ok(value as usize)
                } else {
                    Err(Error::InvalidValue(data.to_owned()))
                }
            },
            None => Err(Error::InvalidValue(data.to_owned())),
        }
    }

    /// The decimal digits of the number.
    fn encode(&self, buffer: &mut String) -> (r: Result<(), Error>)
        ensures
            r is Ok,
            final(buffer)@ == old(buffer)@ + decimal_text(*self as nat),
    {
        push_natural(buffer, *self as u64);
        Ok(())
    }
}

impl TaxStatementType for usize {
    fn read(data: &str) -> (r: Result<usize, Error>)
        ensures
            natural_text_usize(data@) matches Some(v) ==> r == Ok::<usize, Error>(v),
            natural_text_usize(data@) is None ==> invalid_value(r, data@),
    {
        <usize as TaxStatementPrimitiveType>::decode(data)
    }

    fn write(&self, buffer: &mut String) -> (r: Result<(), Error>)
        ensures
            r is Ok,
            final(buffer)@ == old(buffer)@ + decimal_text(*self as nat),
    {
        self.encode(buffer)
    }
}

impl TaxStatementPrimitiveType for bool {
    /// `0` is false and `1` true.
    fn decode(data: &str) -> (r: Result<bool, Error>)
        ensures
            data@ == seq!['0'] ==> r == Ok::<bool, Error>(false),
            data@ == seq!['1'] ==> r == Ok::<bool, Error>(true),
            data@ != seq!['0'] && data@ != seq!['1'] ==> invalid_value(r, data@),
    {
        if data.unicode_len() == 1 {
            let c = data.get_char(0);
            if c == '0' {
                assert(data@ =~= seq!['0']);
                return Ok(false);
            }
            if c == '1' {
                assert(data@ =~= seq!['1']);
                return Ok(true);
            }
        }
        Err(Error::InvalidValue(data.to_owned()))
    }

    fn encode(&self, buffer: &mut String) -> (r: Result<(), Error>)
        ensures
            r is Ok,
            final(buffer)@ == old(buffer)@.push(if *self { '1' } else { '0' }),
    {
        buffer.push(if *self { '1' } else { '0' });
        Ok(())
    }
}

impl TaxStatementType for bool {
    fn read(data: &str) -> (r: Result<bool, Error>)
        ensures
            data@ == seq!['0'] ==> r == Ok::<bool, Error>(false),
            data@ == seq!['1'] ==> r == Ok::<bool, Error>(true),
            data@ != seq!['0'] && data@ != seq!['1'] ==> invalid_value(r, data@),
    {
        <bool as TaxStatementPrimitiveType>::decode(data)
    }

    fn write(&self, buffer: &mut String) -> (r: Result<(), Error>)
        ensures
            r is Ok,
            final(buffer)@ == old(buffer)@.push(if *self { '1' } else { '0' }),
    {
        self.encode(buffer)
    }
}

impl TaxStatementPrimitiveType for String {
    /// The text itself.
    fn decode(data: &str) -> (r: Result<String, Error>)
        ensures
            r matches Ok(s) && s@ == data@,
    {
        Ok(data.to_owned())
    }

    fn encode(&self, buffer: &mut String) -> (r: Result<(), Error>)
        ensures
            r is Ok,
            final(buffer)@ == old(buffer)@ + self@,
    {
        buffer.append(self.as_str());
        Ok(())
    }
}

impl TaxStatementType for String {
    fn read(data: &str) -> (r: Result<String, Error>)
        ensures
            r matches Ok(s) && s@ == data@,
    {
        <String as TaxStatementPrimitiveType>::decode(data)
    }

    fn write(&self, buffer: &mut String) -> (r: Result<(), Error>)
        ensures
            r is Ok,
            final(buffer)@ == old(buffer)@ + self@,
    {
        self.encode(buffer)
    }
}

/// December 30, 1899, the day from which dates are counted.
pub fn get_base_date() -> (r: Date)
    ensures
        r@ == BASE_DAY_NUMBER,
{
    proof {
        lemma_base_day_number();
    }
    Date::from_ymd(1899, 12, 30).unwrap()
}

/// The text of a date: an integer within `i64` that, added to the base date, gives
/// the day number of a date that `chrono` can hold.
pub open spec fn date_text_days(data: Seq<char>) -> Option<int> {
    match integer_value(data) {
        Some(days) => if i64::MIN <= days <= i64::MAX && MIN_DAYS <= BASE_DAY_NUMBER + days <= MAX_DAYS {
            Some(days)
        } else {
            None
        },
        None => None,
    }
}

impl TaxStatementPrimitiveType for Date {
    /// The date the given number of days after the base date. A number of days that
    /// leads out of the dates that `chrono` can hold is an invalid value.
    fn decode(data: &str) -> (r: Result<Date, Error>)
        ensures
            date_text_days(data@) matches Some(days) ==> (r matches Ok(date) && date@ == BASE_DAY_NUMBER + days),
            date_text_days(data@) is None ==> invalid_value(r, data@),
    {
        match parse_integer(data) {
            Some(days) => match get_base_date().add_days(days) {
                Some(date) => Ok(date),
                None => Err(Error::InvalidValue(data.to_owned())),
            },
            None => Err(Error::InvalidValue(data.to_owned())),
        }
    }

    /// The number of days since the base date.
    fn encode(&self, buffer: &mut String) -> (r: Result<(), Error>)
        ensures
            r is Ok,
            final(buffer)@ == old(buffer)@ + integer_text(self@ - BASE_DAY_NUMBER),
    {
        let days = self.days_since(get_base_date());
        push_integer(buffer, days);
        Ok(())
    }
}

impl TaxStatementType for Date {
    fn read(data: &str) -> (r: Result<Date, Error>)
        ensures
            date_text_days(data@) matches Some(days) ==> (r matches Ok(date) && date@ == BASE_DAY_NUMBER + days),
            date_text_days(data@) is None ==> invalid_value(r, data@),
    {
        <Date as TaxStatementPrimitiveType>::decode(data)
    }

    fn write(&self, buffer: &mut String) -> (r: Result<(), Error>)
        ensures
            r is Ok,
            final(buffer)@ == old(buffer)@ + integer_text(self@ - BASE_DAY_NUMBER),
    {
        self.encode(buffer)
    }
}

/// Decoding the encoding of a `usize` gives it back.
pub proof fn lemma_usize_encoding_roundtrip(n: usize)
    ensures
        natural_text_usize(decimal_text(n as nat)) == Some(n),
{
    lemma_natural_text_roundtrip(n as nat);
}

/// Decoding the encoding of a boolean gives it back: `1` is true, `0` false.
pub proof fn lemma_bool_encoding_roundtrip(b: bool)
    ensures
        b <==> seq![if b { '1' } else { '0' }] == seq!['1'],
        !b <==> seq![if b { '1' } else { '0' }] == seq!['0'],
{
    assert(seq!['1'][0] != seq!['0'][0]);
}

/// Decoding the encoding of a date gives it back: the number of days since the
/// base date, written in decimal, reads as that number.
pub proof fn lemma_date_encoding_roundtrip(day: int)
    requires
        MIN_DAYS <= day <= MAX_DAYS,
    ensures
        date_text_days(integer_text(day - BASE_DAY_NUMBER)) == Some(day - BASE_DAY_NUMBER),
{
    lemma_integer_text_roundtrip(day - BASE_DAY_NUMBER);
}

} // verus!

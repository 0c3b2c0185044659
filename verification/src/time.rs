//! Dates and times of the proleptic Gregorian calendar, as `chrono` holds them, and
//! the current date and time.

use vstd::prelude::*;

use chrono::Datelike;
use chrono::Timelike;

verus! {

/// The first year that a date can have.
pub const MIN_YEAR: i32 = -262143;

/// The last year that a date can have.
pub const MAX_YEAR: i32 = 262142;

/// The day number of January 1 of `MIN_YEAR`.
pub const MIN_DAYS: i32 = -95746129;

/// The day number of December 31 of `MAX_YEAR`.
pub const MAX_DAYS: i32 = 95745399;

pub open spec fn is_leap_year(year: int) -> bool {
    year % 4 == 0 && (year % 100 != 0 || year % 400 == 0)
}

pub open spec fn days_in_month(year: int, month: int) -> int {
    if month == 2 {
        if is_leap_year(year) { 29 } else { 28 }
    } else if month == 4 || month == 6 || month == 9 || month == 11 {
        30
    } else {
        31
    }
}

/// The days of the year before the first day of `month`.
pub open spec fn days_before_month(year: int, month: int) -> int {
    let before: int = if month == 1 { 0 } else if month == 2 { 31 } else if month == 3 { 59 }
        else if month == 4 { 90 } else if month == 5 { 120 } else if month == 6 { 151 }
        else if month == 7 { 181 } else if month == 8 { 212 } else if month == 9 { 243 }
        else if month == 10 { 273 } else if month == 11 { 304 } else { 334 };
    if month > 2 && is_leap_year(year) { before + 1 } else { before }
}

/// The number of a day, January 1 of year 1 being day 1 (negative years are the
/// years before it: year 0 is 1 BCE).
pub open spec fn day_number(year: int, month: int, day: int) -> int {
    let y = year - 1;
    365 * y + y / 4 - y / 100 + y / 400 + days_before_month(year, month) + day
}

/// A calendar date that `chrono` can hold.
pub open spec fn valid_ymd(year: int, month: int, day: int) -> bool {
    &&& MIN_YEAR <= year <= MAX_YEAR
    &&& 1 <= month <= 12
    &&& 1 <= day <= days_in_month(year, month)
}

/// A date: the number of the day, January 1 of year 1 being day 1.
#[derive(Clone, Copy, Debug, PartialEq, Eq, Structural)]
pub struct Date {
    days: i32,
}

impl View for Date {
    type V = int;

    closed spec fn view(&self) -> int {
        self.days as int
    }
}

impl Date {
    #[verifier::type_invariant]
    spec fn in_range(self) -> bool {
        MIN_DAYS <= self@ <= MAX_DAYS
    }

    /// The date with the given day number, if `chrono` can hold it.
    pub fn from_day_number(days: i64) -> (r: Option<Date>)
        ensures
            r is Some <==> MIN_DAYS <= days <= MAX_DAYS,
            r matches Some(d) ==> d@ == days,
    {
        if MIN_DAYS as i64 <= days && days <= MAX_DAYS as i64 {
            Some(Date { days: days as i32 })
        } else {
            None
        }
    }

    /// `chrono::NaiveDate::from_ymd_opt`: the date with the given year, month and
    /// day, if it exists in the calendar and `chrono` can hold it.
    #[verifier::external_body]
    fn from_ymd_by_chrono(year: i32, month: u32, day: u32) -> (r: Option<Date>)
        ensures
            r is Some <==> valid_ymd(year as int, month as int, day as int),
            r matches Some(d) ==> d@ == day_number(year as int, month as int, day as int),
    {
        match chrono::NaiveDate::from_ymd_opt(year, month, day) {
            Some(d) => Some(Date { days: d.num_days_from_ce() }),
            None => None,
        }
    }

    /// The date with the given year, month and day, if it exists in the calendar
    /// and `chrono` can hold it.
    pub fn from_ymd(year: i32, month: u32, day: u32) -> (r: Option<Date>)
        ensures
            r is Some <==> valid_ymd(year as int, month as int, day as int),
            r matches Some(d) ==> d@ == day_number(year as int, month as int, day as int),
    {
        Date::from_ymd_by_chrono(year, month, day)
    }

    pub fn day_number(&self) -> (r: i32)
        ensures
            r == self@,
            MIN_DAYS <= r <= MAX_DAYS,
    {
        proof {
            use_type_invariant(self);
        }
        self.days
    }

    /// The date `days` days later (earlier for a negative number), if `chrono` can
    /// hold it.
    pub fn add_days(&self, days: i64) -> (r: Option<Date>)
        ensures
            r is Some <==> MIN_DAYS <= self@ + days <= MAX_DAYS,
            r matches Some(d) ==> d@ == self@ + days,
    {
        proof {
            use_type_invariant(self);
        }
        if days < MIN_DAYS as i64 - MAX_DAYS as i64 || days > MAX_DAYS as i64 - MIN_DAYS as i64 {
            return None;
        }
        Date::from_day_number(self.days as i64 + days)
    }

    /// The number of days from `other` to this date.
    pub fn days_since(&self, other: Date) -> (r: i64)
        ensures
            r == self@ - other@,
    {
        proof {
            use_type_invariant(self);
            use_type_invariant(&other);
        }
        self.days as i64 - other.days as i64
    }
}

/// A time of the day: seconds since midnight and a fraction of a second in
/// nanoseconds (above a billion in a leap second).
#[derive(Clone, Copy, Debug, PartialEq, Eq, Structural)]
pub struct Time {
    seconds: u32,
    nanoseconds: u32,
}

impl View for Time {
    type V = (int, int);

    closed spec fn view(&self) -> (int, int) {
        (self.seconds as int, self.nanoseconds as int)
    }
}

impl Time {
    #[verifier::type_invariant]
    spec fn in_range(self) -> bool {
        0 <= self@.0 < 86400 && 0 <= self@.1 < 2000000000
    }

    /// The time `seconds` after midnight plus `nanoseconds`, if it is one of a day.
    pub fn new(seconds: u32, nanoseconds: u32) -> (r: Option<Time>)
        ensures
            r is Some <==> seconds < 86400 && nanoseconds < 2000000000,
            r matches Some(t) ==> t@ == (seconds as int, nanoseconds as int),
    {
        if seconds < 86400 && nanoseconds < 2000000000 {
            Some(Time { seconds, nanoseconds })
        } else {
            None
        }
    }

    pub fn seconds(&self) -> (r: u32)
        ensures
            r == self@.0,
    {
        self.seconds
    }

    pub fn nanoseconds(&self) -> (r: u32)
        ensures
            r == self@.1,
    {
        self.nanoseconds
    }
}

/// A date and a time of that day.
#[derive(Clone, Copy, Debug, PartialEq, Eq, Structural)]
pub struct DateTime {
    pub date: Date,
    pub time: Time,
}

/// A date with the time of the day where it is known.
#[derive(Clone, Copy, Debug, PartialEq, Eq, Structural)]
pub struct DateOptTime {
    pub date: Date,
    pub time: Option<Time>,
}

impl DateOptTime {
    /// The date with no time.
    pub fn from_date(date: Date) -> (r: DateOptTime)
        ensures
            r.date == date,
            r.time is None,
    {
        DateOptTime { date, time: None }
    }

    /// The date and the time.
    pub fn from_date_time(date_time: DateTime) -> (r: DateOptTime)
        ensures
            r.date == date_time.date,
            r.time == Some(date_time.time),
    {
        DateOptTime { date: date_time.date, time: Some(date_time.time) }
    }
}

/// What `chrono::NaiveDateTime::parse_from_str` reads from a text in the format
/// `%Y-%m-%d, %H:%M:%S`: the day number, the seconds since midnight and the
/// nanoseconds.
pub uninterp spec fn date_time_from_text(text: Seq<char>) -> Option<(int, int, int)>;

/// `chrono::NaiveDateTime::parse_from_str` with the format `%Y-%m-%d, %H:%M:%S`:
/// the date and time in `text`.
#[verifier::external_body]
fn parse_date_time_by_chrono(text: &str) -> (r: Option<DateTime>)
    ensures
        match r {
            Some(t) => date_time_from_text(text@) == Some((t.date@, t.time@.0, t.time@.1)),
            None => date_time_from_text(text@) is None,
        },
{
    match chrono::NaiveDateTime::parse_from_str(text, "%Y-%m-%d, %H:%M:%S") {
        Ok(t) => Some(DateTime {
            date: Date { days: t.date().num_days_from_ce() },
            time: Time { seconds: t.time().num_seconds_from_midnight(), nanoseconds: t.time().nanosecond() },
        }),
        Err(_) => None,
    }
}

/// The date and time in `text`, in the format `%Y-%m-%d, %H:%M:%S`.
pub fn parse_date_time(text: &str) -> (r: Option<DateTime>)
    ensures
        match r {
            Some(t) => date_time_from_text(text@) == Some((t.date@, t.time@.0, t.time@.1)),
            None => date_time_from_text(text@) is None,
        },
{
    parse_date_time_by_chrono(text)
}

/// `chrono::Local::now`: the current date and time in the local time zone. What
/// it returns depends on the clock and the time zone: nothing is stated of it.
#[verifier::external_body]
pub fn now() -> DateTime {
    let now = chrono::Local::now().naive_local();
    let date = Date { days: now.date().num_days_from_ce() };
    let time = Time { seconds: now.time().num_seconds_from_midnight(), nanoseconds: now.time().nanosecond() };
    DateTime { date, time }
}

/// `chrono::Utc::now`: the current date and time in UTC. What it returns depends on
/// the clock: nothing is stated of it.
#[verifier::external_body]
pub fn utc_now() -> DateTime {
    let now = chrono::Utc::now().naive_utc();
    let date = Date { days: now.date().num_days_from_ce() };
    let time = Time { seconds: now.time().num_seconds_from_midnight(), nanoseconds: now.time().nanosecond() };
    DateTime { date, time }
}

/// The current date in the local time zone.
pub fn today() -> Date {
    now().date
}

/// The conclusion time of a trade concluded now.
pub fn today_trade_conclusion_time() -> (r: DateOptTime)
    ensures
        r.time is Some,
{
    DateOptTime::from_date_time(now())
}

/// The number of days from the conclusion of a trade to its execution.
pub const TRADE_SETTLEMENT_DAYS: i64 = 2;

/// `execution` is the execution date of a trade concluded on day `conclusion`: two
/// days later, where `chrono` can hold that date.
pub open spec fn executes_after(execution: Option<Date>, conclusion: int) -> bool {
    &&& execution is Some <==> conclusion + 2 <= MAX_DAYS
    &&& execution matches Some(d) ==> d@ == conclusion + 2
}

/// The execution date of a trade concluded on `conclusion_date`: two days later,
/// if `chrono` can hold that date.
pub fn trade_execution_date(conclusion_date: Date) -> (r: Option<Date>)
    ensures
        r is Some <==> conclusion_date@ + 2 <= MAX_DAYS,
        r matches Some(d) ==> d@ == conclusion_date@ + 2,
        executes_after(r, conclusion_date@),
{
    proof {
        use_type_invariant(&conclusion_date);
    }
    conclusion_date.add_days(TRADE_SETTLEMENT_DAYS)
}

/// The execution date of a trade concluded today (`None` only on the last two days
/// that `chrono` can hold): two days after the date that `today` gave it. Which
/// day that is depends on the clock.
pub fn today_trade_execution_date() -> (r: Option<Date>)
    ensures
        exists|conclusion: int| MIN_DAYS <= conclusion <= MAX_DAYS && #[trigger] executes_after(r, conclusion),
        exists|day: Date| #[trigger] call_ensures(today, (), day) && executes_after(r, day@),
{
    let clock = today;
    let today = clock();
    assert(call_ensures(clock, (), today));
    proof {
        use_type_invariant(&today);
    }
    let r = trade_execution_date(today);
    assert(executes_after(r, today@));
    r
}

} // verus!

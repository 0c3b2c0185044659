use investments::time::{
    now, parse_date_time, today, today_trade_conclusion_time, today_trade_execution_date, trade_execution_date,
    utc_now, Date, DateOptTime, Time,
};

#[test]
fn dates_of_the_calendar() {
    assert_eq!(Date::from_ymd(1, 1, 1).unwrap().day_number(), 1);
    assert_eq!(Date::from_ymd(1970, 1, 1).unwrap().day_number(), 719163);
    assert_eq!(Date::from_ymd(2021, 1, 1).unwrap().day_number(), 737791);
    assert_eq!(Date::from_ymd(0, 12, 31).unwrap().day_number(), 0);
    assert!(Date::from_ymd(2023, 2, 29).is_none());
    assert!(Date::from_ymd(2024, 2, 29).is_some());
    assert!(Date::from_ymd(2021, 13, 1).is_none());
    assert!(Date::from_ymd(2021, 4, 31).is_none());
    assert!(Date::from_ymd(262142, 12, 31).is_some());
    assert!(Date::from_ymd(262143, 1, 1).is_none());
    assert!(Date::from_ymd(-262143, 1, 1).is_some());
    assert!(Date::from_ymd(-262144, 12, 31).is_none());
}

#[test]
fn date_arithmetic() {
    let date = Date::from_ymd(2021, 12, 31).unwrap();
    assert_eq!(date.add_days(1).unwrap(), Date::from_ymd(2022, 1, 1).unwrap());
    assert_eq!(date.add_days(-365).unwrap(), Date::from_ymd(2020, 12, 31).unwrap());
    assert_eq!(date.days_since(Date::from_ymd(2021, 1, 1).unwrap()), 364);
    assert!(Date::from_ymd(262142, 12, 31).unwrap().add_days(1).is_none());
    assert!(date.add_days(i64::MAX).is_none());
    assert!(Date::from_day_number(95745400).is_none());
    assert_eq!(trade_execution_date(date).unwrap(), Date::from_ymd(2022, 1, 2).unwrap());
}

#[test]
fn times_of_the_day() {
    assert!(Time::new(86399, 999_999_999).is_some());
    assert!(Time::new(86400, 0).is_none());
    let time = Time::new(3600, 5).unwrap();
    assert_eq!((time.seconds(), time.nanoseconds()), (3600, 5));
    let date = Date::from_ymd(2021, 1, 1).unwrap();
    let only_date = DateOptTime::from_date(date);
    assert!(only_date.time.is_none());
}

#[test]
fn date_time_texts() {
    let parsed = parse_date_time("2021-03-04, 10:20:30").unwrap();
    assert_eq!(parsed.date, Date::from_ymd(2021, 3, 4).unwrap());
    assert_eq!(parsed.time.seconds(), 10 * 3600 + 20 * 60 + 30);
    assert!(parse_date_time("2021-03-04 10:20:30").is_none());
    assert!(parse_date_time("2021-02-30, 10:20:30").is_none());
}

#[test]
fn current_date_and_time() {
    let current = now();
    let conclusion = today_trade_conclusion_time();
    assert!(conclusion.time.is_some());
    assert!(conclusion.date.days_since(current.date) <= 1);
    let execution = today_trade_execution_date().unwrap();
    let days = execution.days_since(today());
    assert!((1..=3).contains(&days));
    assert!(utc_now().date.days_since(current.date).abs() <= 1);
}

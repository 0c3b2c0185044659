use investments::countries::{get_code, CountryCode};
use investments::encoding::{
    get_base_date, parse_integer, parse_natural, push_integer, TaxStatementPrimitiveType, TaxStatementType,
};
use investments::error::Error;
use investments::time::Date;

fn encoded<T: TaxStatementPrimitiveType>(value: &T) -> String {
    let mut buffer = String::new();
    value.encode(&mut buffer).unwrap();
    buffer
}

#[test]
fn integer_texts() {
    assert_eq!(parse_natural("123"), Some(123));
    assert_eq!(parse_natural("+7"), Some(7));
    assert_eq!(parse_natural("007"), Some(7));
    assert_eq!(parse_natural("-1"), None);
    assert_eq!(parse_natural(""), None);
    assert_eq!(parse_natural("+"), None);
    assert_eq!(parse_natural("12a"), None);
    assert_eq!(parse_natural(" 1"), None);
    assert_eq!(parse_natural("18446744073709551615"), Some(u64::MAX));
    assert_eq!(parse_natural("18446744073709551616"), None);
    assert_eq!(parse_integer("-9223372036854775808"), Some(i64::MIN));
    assert_eq!(parse_integer("9223372036854775807"), Some(i64::MAX));
    assert_eq!(parse_integer("9223372036854775808"), None);
    assert_eq!(parse_integer("-12"), Some(-12));
    assert_eq!(parse_integer("-"), None);
    let mut buffer = String::from("x=");
    push_integer(&mut buffer, -305);
    assert_eq!(buffer, "x=-305");
}

#[test]
fn usize_encoding() {
    assert_eq!(usize::decode("123").unwrap(), 123);
    assert_eq!(usize::decode("+0").unwrap(), 0);
    assert!(matches!(usize::decode("-1"), Err(Error::InvalidValue(text)) if text == "-1"));
    assert!(matches!(usize::decode("1.5"), Err(Error::InvalidValue(_))));
    assert_eq!(encoded(&0usize), "0");
    assert_eq!(encoded(&1234usize), "1234");
    for n in [0usize, 9, 10, 99, 100, 65535, usize::MAX] {
        assert_eq!(usize::decode(&encoded(&n)).unwrap(), n);
    }
    let mut buffer = String::new();
    <usize as TaxStatementType>::write(&42usize, &mut buffer).unwrap();
    assert_eq!(<usize as TaxStatementType>::read(&buffer).unwrap(), 42);
}

#[test]
fn bool_encoding() {
    assert!(!bool::decode("0").unwrap());
    assert!(bool::decode("1").unwrap());
    assert!(matches!(bool::decode("2"), Err(Error::InvalidValue(text)) if text == "2"));
    assert!(matches!(bool::decode("true"), Err(Error::InvalidValue(_))));
    assert_eq!(encoded(&true), "1");
    assert_eq!(encoded(&false), "0");
    assert!(bool::decode(&encoded(&true)).unwrap());
    assert!(<bool as TaxStatementType>::read("1").unwrap());
}

#[test]
fn string_encoding() {
    assert_eq!(String::decode("Тест 1").unwrap(), "Тест 1");
    assert_eq!(encoded(&"abc".to_owned()), "abc");
    let mut buffer = String::from("a");
    "bc".to_owned().encode(&mut buffer).unwrap();
    assert_eq!(buffer, "abc");
    assert_eq!(<String as TaxStatementType>::read("x").unwrap(), "x");
}

#[test]
fn date_encoding() {
    assert_eq!(get_base_date(), Date::from_ymd(1899, 12, 30).unwrap());
    assert_eq!(Date::decode("0").unwrap(), Date::from_ymd(1899, 12, 30).unwrap());
    assert_eq!(Date::decode("1").unwrap(), Date::from_ymd(1899, 12, 31).unwrap());
    assert_eq!(Date::decode("-1").unwrap(), Date::from_ymd(1899, 12, 29).unwrap());
    assert_eq!(Date::decode("44197").unwrap(), Date::from_ymd(2021, 1, 1).unwrap());
    assert!(matches!(Date::decode("x"), Err(Error::InvalidValue(_))));
    assert!(matches!(Date::decode("99999999999"), Err(Error::InvalidValue(_))));
    assert_eq!(encoded(&Date::from_ymd(2021, 1, 1).unwrap()), "44197");
    assert_eq!(encoded(&Date::from_ymd(1899, 12, 29).unwrap()), "-1");
    let leap = Date::from_ymd(2024, 2, 29).unwrap();
    assert_eq!(Date::decode(&encoded(&leap)).unwrap(), leap);
    assert_eq!(<Date as TaxStatementType>::read("44197").unwrap(), Date::from_ymd(2021, 1, 1).unwrap());
}

#[test]
fn country_codes() {
    assert_eq!(get_code("US").unwrap(), 840);
    assert_eq!(get_code("RU").unwrap(), 643);
    assert_eq!(get_code("JP").unwrap(), 392);
    assert_eq!(get_code("AB").unwrap(), 895);
    assert_eq!(get_code("AU").unwrap(), 36);
    assert!(matches!(get_code("XX"), Err(Error::UnknownCountry(name)) if name == "XX"));
    assert!(matches!(get_code("USA"), Err(Error::UnknownCountry(_))));
    assert!(matches!(get_code("us"), Err(Error::UnknownCountry(_))));
    assert_eq!(CountryCode::new("RU").unwrap(), CountryCode::Russia);
    assert_eq!(CountryCode::new("US").unwrap(), CountryCode::Usa);
    assert_eq!(CountryCode::new("DE").unwrap(), CountryCode::Other(276));
    assert!(CountryCode::new("").is_err());
}

#[test]
fn country_code_numbers() {
    assert_eq!(CountryCode::from_code(643), CountryCode::Russia);
    assert_eq!(CountryCode::from_code(840), CountryCode::Usa);
    assert_eq!(CountryCode::from_code(36), CountryCode::Other(36));
    assert_eq!(CountryCode::Russia.to_code(), 643);
    assert_eq!(CountryCode::Usa.to_code(), 840);
    assert_eq!(CountryCode::Other(5).to_code(), 5);
}

#[test]
fn country_code_write_read() {
    for country in [CountryCode::Russia, CountryCode::Usa, CountryCode::Other(36)] {
        let mut buffer = String::new();
        country.write(&mut buffer).unwrap();
        assert_eq!(CountryCode::read(&buffer).unwrap(), country);
    }
    let mut buffer = String::new();
    CountryCode::Other(840).write(&mut buffer).unwrap();
    assert_eq!(buffer, "840");
    assert_eq!(CountryCode::read(&buffer).unwrap(), CountryCode::Usa);
    assert!(matches!(CountryCode::read("abc"), Err(Error::InvalidValue(_))));
}

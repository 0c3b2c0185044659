use investments::cash::{Cash, Currency};
use investments::decimal::Decimal;
use investments::error::Error;

fn usd(mantissa: i128, scale: u32) -> Cash {
    Cash::new(Currency::usd(), Decimal::new(mantissa, scale).unwrap())
}

fn parts(c: Cash) -> (i128, u32) {
    (c.amount.mantissa(), c.amount.scale())
}

#[test]
fn currency_codes() {
    let eur = Currency::new("EUR");
    assert_eq!(eur.code(), "EUR");
    assert_eq!(Currency::new("EURO").code(), "EURO");
    assert_eq!(Currency::new("").code(), "");
    assert_eq!(Currency::new("ABCDEFGHIJKLMNOPQRSTUVWXYZ").code(), "ABCDEFGHIJKLMNOPQRSTUVWXYZ");
    assert_ne!(Currency::new("EUR"), Currency::new("EURO"));
    assert_eq!(Currency::usd(), Currency::new("USD"));
    assert_eq!(Currency::rub().code(), "RUB");
    assert_eq!(Currency::from_letters('H', 'K', 'D').code(), "HKD");
}

#[test]
fn cash_sum_and_difference() {
    assert_eq!(parts(usd(150, 2).add(usd(25, 1)).unwrap()), (400, 2));
    assert_eq!(parts(usd(150, 2).sub(usd(25, 1)).unwrap()), (-100, 2));
    let rub = Cash::new(Currency::rub(), Decimal::one());
    assert!(matches!(usd(1, 0).add(rub), Err(Error::CurrencyMismatch)));
    assert!(matches!(usd(1, 0).sub(rub), Err(Error::CurrencyMismatch)));
    let max = usd(79228162514264337593543950335, 0);
    assert!(matches!(max.add(usd(1, 0)), Err(Error::Overflow)));
}

#[test]
fn cash_rounds_to_cents() {
    assert_eq!(parts(usd(12345, 3).round()), (1235, 2));
    assert_eq!(parts(usd(-12345, 3).round()), (-1235, 2));
    assert_eq!(parts(usd(12001, 3).round()), (12, 0));
    assert_eq!(parts(usd(1000, 0).round()), (1000, 0));
    let twice = usd(12345, 3).round().round();
    assert_eq!(parts(twice), (1235, 2));
}

#[test]
fn cash_ratio() {
    assert!(usd(3, 0).div(usd(4, 0)).unwrap().equals(&Decimal::new(75, 2).unwrap()));
    assert!(matches!(usd(3, 0).div(usd(0, 0)), Err(Error::DivisionByZero)));
    assert!(matches!(usd(3, 0).div(Cash::new(Currency::rub(), Decimal::one())), Err(Error::CurrencyMismatch)));
}

#[test]
fn cash_scaling() {
    let c = usd(15, 1).mul(Decimal::from_int(3)).unwrap();
    assert_eq!(c.currency, Currency::usd());
    assert_eq!(parts(c), (45, 1));
    let d = usd(3, 0).div_by(Decimal::from_int(4)).unwrap();
    assert!(d.amount.equals(&Decimal::new(75, 2).unwrap()));
    assert!(usd(3, 0).div_by(Decimal::zero()).is_none());
    assert!(usd(1, 0).is_positive() && usd(-1, 0).is_negative() && usd(0, 2).is_zero());
    assert_eq!(parts(usd(5, 0).neg()), (-5, 0));
    assert_eq!(parts(Cash::zero(Currency::rub())), (0, 0));
}

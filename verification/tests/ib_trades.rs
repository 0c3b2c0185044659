use investments::cash::Currency;
use investments::error::Error;
use investments::ib_trades::{
    forex_trade_from_record, parse_decimal, parse_forex_record, parse_stock_record, DecimalRestrictions, Record, StatementParser,
    TradeStatement, TradesParser,
};
use investments::time::{parse_date_time, Date};
use investments::trades::{StockSellType, StockSource};

struct Parser;

impl StatementParser for Parser {
    fn base_currency(&self) -> Result<Currency, Error> {
        Ok(Currency::usd())
    }

    fn get_execution_date(&self, _symbol: &str, conclusion_date: Date) -> Date {
        conclusion_date.add_days(2).unwrap()
    }
}

fn record(fields: &[(&str, &str)]) -> Record {
    Record { fields: fields.iter().map(|(name, value)| (name.to_string(), value.to_string())).collect() }
}

fn value(d: investments::decimal::Decimal) -> (i128, u32) {
    let n = d.normalize();
    (n.mantissa(), n.scale())
}

#[test]
fn decimal_fields() {
    assert_eq!(value(parse_decimal("1.50", DecimalRestrictions::StrictlyPositive).unwrap()), (15, 1));
    assert!(matches!(parse_decimal("0", DecimalRestrictions::NonZero), Err(Error::InvalidValue(text)) if text == "0"));
    assert!(parse_decimal("-1", DecimalRestrictions::NegativeOrZero).is_ok());
    assert!(parse_decimal("1", DecimalRestrictions::NegativeOrZero).is_err());
    assert!(parse_decimal("-1", DecimalRestrictions::PositiveOrZero).is_err());
    assert!(parse_decimal("-1", DecimalRestrictions::StrictlyNegative).is_ok());
    assert!(parse_decimal("x", DecimalRestrictions::No).is_err());
}

#[test]
fn record_fields() {
    let r = record(&[("A", "1"), ("B", "2"), ("A", "3")]);
    assert_eq!(r.get_value("A").unwrap(), "1");
    assert!(matches!(r.get_value("C"), Err(Error::MissingField(name)) if name == "C"));
    assert!(r.check_value("B", "2").is_ok());
    assert!(matches!(r.check_value("B", "3"), Err(Error::InvalidValue(_))));
    let cash = r.parse_cash("B", Currency::rub(), DecimalRestrictions::NonZero).unwrap();
    assert_eq!(cash.currency, Currency::rub());
}

fn forex_record(quantity: &str, proceeds: &str) -> Record {
    record(&[
        ("DataDiscriminator", "Order"), ("Asset Category", "Forex"), ("Symbol", "EUR.USD"),
        ("Date/Time", "2021-03-04, 10:20:30"), ("Quantity", quantity), ("Proceeds", proceeds),
        ("Comm in USD", "-2"),
    ])
}

#[test]
fn forex_buy_and_sell() {
    let mut statement = TradeStatement::new();
    let mut parser = TradesParser {};
    parser.parse(&Parser, &mut statement, &forex_record("1000", "-1100")).unwrap();
    let trade = &statement.forex_trades[0];
    assert_eq!(trade.from.currency, Currency::usd());
    assert_eq!(value(trade.from.amount), (1100, 0));
    assert_eq!(trade.to.currency, Currency::new("EUR"));
    assert_eq!(value(trade.to.amount), (1000, 0));
    assert_eq!(value(trade.commission.amount), (2, 0));
    assert_eq!(trade.conclusion_time.date, Date::from_ymd(2021, 3, 4).unwrap());
    assert!(trade.conclusion_time.time.is_none());

    parser.parse(&Parser, &mut statement, &forex_record("-1000", "1100")).unwrap();
    let trade = &statement.forex_trades[1];
    assert_eq!(trade.from.currency, Currency::new("EUR"));
    assert_eq!(value(trade.from.amount), (1000, 0));
    assert_eq!(value(trade.to.amount), (1100, 0));
}

#[test]
fn forex_errors() {
    let mut statement = TradeStatement::new();
    let time = parse_date_time("2021-03-04, 10:20:30").unwrap();
    let r = forex_record("1000", "1100");
    assert!(matches!(parse_forex_record(&Parser, &mut statement, &r, "EUR.USD", time),
        Err(Error::UnexpectedForexValues { quantity, volume }) if quantity == "1000" && volume == "1100"));
    assert!(matches!(parse_forex_record(&Parser, &mut statement, &r, "EURUSD", time),
        Err(Error::InvalidForexPair(symbol)) if symbol == "EURUSD"));
    assert!(matches!(parse_forex_record(&Parser, &mut statement, &r, "EUR.USD.X", time), Err(Error::InvalidForexPair(_))));
    let zero = forex_record("0", "-1100");
    assert!(parse_forex_record(&Parser, &mut statement, &zero, "EUR.USD", time).is_err());
    assert!(statement.forex_trades.is_empty());
}

fn stock_record(quantity: &str, proceeds: &str) -> Record {
    record(&[
        ("DataDiscriminator", "Order"), ("Asset Category", "Stocks"), ("Currency", "USD"), ("Symbol", "AAPL"),
        ("Date/Time", "2021-03-04, 10:20:30"), ("Quantity", quantity), ("T. Price", "120.5"),
        ("Proceeds", proceeds), ("Comm/Fee", "-1.25"),
    ])
}

#[test]
fn stock_buy_and_sell() {
    let mut statement = TradeStatement::new();
    let mut parser = TradesParser {};
    parser.parse(&Parser, &mut statement, &stock_record("10.0", "-1205")).unwrap();
    assert_eq!(statement.stock_buys.len(), 1);
    let buy = &statement.stock_buys[0];
    assert_eq!(buy.symbol, "AAPL");
    assert_eq!((buy.quantity.mantissa(), buy.quantity.scale()), (10, 0));
    assert_eq!(buy.execution_date, Date::from_ymd(2021, 3, 6).unwrap());
    match buy.type_ {
        StockSource::Trade { price, volume, commission } => {
            assert_eq!(value(price.amount), (1205, 1));
            assert_eq!(value(volume.amount), (1205, 0));
            assert_eq!(value(commission.amount), (125, 2));
        },
        StockSource::CorporateAction => panic!("a trade expected"),
    }

    parser.parse(&Parser, &mut statement, &stock_record("-4", "482")).unwrap();
    assert_eq!(statement.stock_sells.len(), 1);
    let sell = &statement.stock_sells[0];
    assert_eq!(value(sell.quantity), (4, 0));
    assert!(!sell.is_processed());
    assert!(matches!(sell.type_, StockSellType::Trade { .. }));
    assert_eq!(sell.conclusion_time.date, Date::from_ymd(2021, 3, 4).unwrap());
}

#[test]
fn stock_errors() {
    let mut statement = TradeStatement::new();
    let mut parser = TradesParser {};
    assert!(parser.parse(&Parser, &mut statement, &stock_record("10", "1205")).is_err());
    assert!(parser.parse(&Parser, &mut statement, &stock_record("0", "-1205")).is_err());
    let time = parse_date_time("2021-03-04, 10:20:30").unwrap();
    assert!(matches!(parse_stock_record(&Parser, &mut statement, &stock_record("x", "-1"), "AAPL", time),
        Err(Error::UnexpectedTradeQuantity { symbol, quantity }) if symbol == "AAPL" && quantity == "x"));
    assert!(statement.stock_buys.is_empty() && statement.stock_sells.is_empty());
}

#[test]
fn unsupported_records() {
    let mut statement = TradeStatement::new();
    let mut parser = TradesParser {};
    let option = record(&[
        ("DataDiscriminator", "Order"), ("Asset Category", "Options"), ("Symbol", "X"),
        ("Date/Time", "2021-03-04, 10:20:30"),
    ]);
    assert!(matches!(parser.parse(&Parser, &mut statement, &option), Err(Error::UnsupportedAssetCategory(text)) if text == "Options"));
    let total = record(&[("DataDiscriminator", "SubTotal")]);
    assert!(parser.parse(&Parser, &mut statement, &total).is_err());
    assert_eq!(parser.skip_data_types().unwrap(), vec!["SubTotal".to_owned(), "Total".to_owned()]);
}

#[test]
fn forex_trade_from_a_record_and_the_base_currency() {
    let time = parse_date_time("2021-03-04, 10:20:30").unwrap();
    let r = forex_record("1000", "-1100");
    let trade = forex_trade_from_record(&r, "EUR.USD", time, Ok(Currency::usd())).unwrap();
    assert_eq!(value(trade.from.amount), (1100, 0));
    assert_eq!(value(trade.commission.amount), (2, 0));
    assert_eq!(trade.commission.currency, Currency::usd());
    let failed = forex_trade_from_record(&r, "EUR.USD", time, Err(Error::NoPortfolios));
    assert!(matches!(failed, Err(Error::NoPortfolios)));
    assert!(forex_trade_from_record(&r, "EUR.USD", time, Ok(Currency::rub())).is_err());
    let longer = record(&[("Quantity", "1000"), ("Proceeds", "-1100"), ("Comm in USD", "-2")]);
    let trade = forex_trade_from_record(&longer, "EURO.USDT", time, Ok(Currency::usd())).unwrap();
    assert_eq!(trade.to.currency.code(), "EURO");
    assert_eq!(trade.from.currency.code(), "USDT");
    let long = record(&[("Quantity", "1"), ("Proceeds", "-2"), ("Comm in USD", "0")]);
    let trade = forex_trade_from_record(&long, "ABCDEFGHIJKLMNOPQRST.USD", time, Ok(Currency::usd())).unwrap();
    assert_eq!(trade.to.currency.code(), "ABCDEFGHIJKLMNOPQRST");
}

#[test]
fn record_of_another_category_changes_nothing() {
    let mut statement = TradeStatement::new();
    let mut parser = TradesParser {};
    let r = record(&[
        ("DataDiscriminator", "Order"), ("Asset Category", "Bonds"), ("Symbol", "X"),
        ("Date/Time", "2021-03-04, 10:20:30"),
    ]);
    assert!(matches!(parser.parse(&Parser, &mut statement, &r), Err(Error::UnsupportedAssetCategory(c)) if c == "Bonds"));
    assert!(statement.forex_trades.is_empty() && statement.stock_buys.is_empty() && statement.stock_sells.is_empty());
}

#[test]
fn stock_record_in_a_currency_of_other_than_three_letters() {
    let mut statement = TradeStatement::new();
    let mut parser = TradesParser {};
    let r = record(&[
        ("DataDiscriminator", "Order"), ("Asset Category", "Stocks"), ("Currency", "USDT"), ("Symbol", "AAPL"),
        ("Date/Time", "2021-03-04, 10:20:30"), ("Quantity", "1"), ("T. Price", "1"),
        ("Proceeds", "-1"), ("Comm/Fee", "0"),
    ]);
    parser.parse(&Parser, &mut statement, &r).unwrap();
    match statement.stock_buys[0].type_ {
        StockSource::Trade { price, .. } => assert_eq!(price.currency.code(), "USDT"),
        StockSource::CorporateAction => panic!("a trade expected"),
    }
}

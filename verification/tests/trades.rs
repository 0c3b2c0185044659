use investments::cash::{Cash, Currency};
use investments::decimal::Decimal;
use investments::error::Error;
use investments::time::{Date, DateOptTime};
use investments::trades::{
    calculate_price, convert_to_cash_rounding, rounded_cash_conversion, rounded_conversion, total_quantity, Country, CurrencyConverter, FifoDetails, ForexTrade, IncomeType,
    PurchaseCostType, PurchaseTotalCost, StockBuy, StockSell, StockSellType, StockSource, StockSourceDetails,
    TaxExemption,
};

/// Converts at a fixed rate of 75 RUB per USD.
struct FixedRates;

impl CurrencyConverter for FixedRates {
    fn convert_to(&self, _date: Date, amount: Cash, to: Currency) -> Result<Decimal, Error> {
        if amount.currency == to {
            Ok(amount.amount)
        } else if amount.currency == Currency::usd() && to == Currency::rub() {
            amount.amount.checked_mul(Decimal::from_int(75)).ok_or(Error::Overflow)
        } else if amount.currency == Currency::rub() && to == Currency::usd() {
            amount.amount.checked_div(Decimal::from_int(75)).ok_or(Error::Overflow)
        } else {
            Err(Error::ConversionFailed("no rate".to_owned()))
        }
    }
}

/// Taxes positive income at 13%, rounded to whole roubles.
struct Russia;

impl Country for Russia {
    fn currency(&self) -> Currency {
        Currency::rub()
    }

    fn tax_to_pay(&self, _income_type: IncomeType, _year: i32, income: Decimal, _paid_tax: Option<Decimal>) -> Decimal {
        if income.is_positive() {
            income.checked_mul(Decimal::new(13, 2).unwrap()).unwrap().round_dp(0)
        } else {
            Decimal::zero()
        }
    }
}

fn dec(mantissa: i128, scale: u32) -> Decimal {
    Decimal::new(mantissa, scale).unwrap()
}

fn usd(amount: i128) -> Cash {
    Cash::new(Currency::usd(), Decimal::from_int(amount as i64))
}

fn date(y: i32, m: u32, d: u32) -> Date {
    Date::from_ymd(y, m, d).unwrap()
}

fn value(d: Decimal) -> (i128, u32) {
    let n = d.normalize();
    (n.mantissa(), n.scale())
}

fn buy_of_ten() -> StockBuy {
    StockBuy::new_trade(
        "AAPL", Decimal::from_int(10), usd(100), usd(1000), usd(1),
        DateOptTime::from_date(date(2020, 3, 2)), date(2020, 3, 4), false)
}

#[test]
fn forex_trade_keeps_the_conclusion_date() {
    let time = DateOptTime::from_date(date(2021, 5, 1));
    let trade = ForexTrade::new(time, usd(100), Cash::new(Currency::rub(), Decimal::from_int(7500)), usd(1));
    assert_eq!(trade.conclusion_time.date, date(2021, 5, 1));
    assert!(trade.conclusion_time.time.is_none());
    assert_eq!(value(trade.to.amount), (7500, 0));
}

#[test]
fn purchase_cost_of_a_trade() {
    let cost = PurchaseTotalCost::new_from_trade(date(2020, 3, 2), date(2020, 3, 4), usd(1000), usd(1));
    let total = cost.calculate(None, Currency::usd(), &FixedRates).unwrap();
    assert_eq!(value(total.amount), (1001, 0));
    let trade = cost.calculate(Some(PurchaseCostType::Trade), Currency::usd(), &FixedRates).unwrap();
    assert_eq!(value(trade.amount), (1000, 0));
    let fee = cost.calculate(Some(PurchaseCostType::Commission), Currency::rub(), &FixedRates).unwrap();
    assert_eq!(fee.currency, Currency::rub());
    assert_eq!(value(fee.amount), (75, 0));
}

#[test]
fn purchase_cost_without_payments_is_zero() {
    let empty = PurchaseTotalCost::new();
    assert_eq!(value(empty.calculate(None, Currency::usd(), &FixedRates).unwrap().amount), (0, 0));
    let free = PurchaseTotalCost::new_from_trade(date(2020, 3, 2), date(2020, 3, 4), usd(0), usd(0));
    assert_eq!(value(free.calculate(None, Currency::rub(), &FixedRates).unwrap().amount), (0, 0));
}

#[test]
fn purchase_costs_add_up() {
    let mut cost = PurchaseTotalCost::new_from_trade(date(2020, 3, 2), date(2020, 3, 4), usd(1000), usd(1));
    let other = PurchaseTotalCost::new_from_trade(date(2020, 4, 1), date(2020, 4, 3), usd(500), usd(0));
    cost.add(&other);
    assert_eq!(value(cost.calculate(None, Currency::usd(), &FixedRates).unwrap().amount), (1501, 0));
}

#[test]
fn purchase_cost_conversion_error_is_passed_on() {
    let cost = PurchaseTotalCost::new_from_trade(
        date(2020, 3, 2), date(2020, 3, 4), Cash::new(Currency::new("EUR"), Decimal::one()), usd(0));
    assert!(matches!(cost.calculate(None, Currency::usd(), &FixedRates), Err(Error::ConversionFailed(_))));
}

#[test]
fn stock_buy_partial_and_full_sell() {
    let mut buy = buy_of_ten();
    assert!(!buy.is_sold());
    assert_eq!(value(buy.get_unsold()), (10, 0));

    let source = buy.sell(Decimal::from_int(4), Decimal::one()).unwrap();
    assert_eq!(value(buy.sold), (4, 0));
    assert_eq!(value(buy.get_unsold()), (6, 0));
    assert_eq!(value(source.quantity), (4, 0));
    match source.type_ {
        StockSource::Trade { price, volume, commission } => {
            assert_eq!(value(price.amount), (100, 0));
            assert_eq!(value(volume.amount), (400, 0));
            assert_eq!(value(commission.amount), (4, 1));
        },
        StockSource::CorporateAction => panic!("a trade expected"),
    }
    let cost = source.cost.calculate(None, Currency::usd(), &FixedRates).unwrap();
    assert_eq!(value(cost.amount), (4004, 1));

    let unsold = buy.get_unsold();
    let rest = buy.sell(unsold, Decimal::one()).unwrap();
    assert!(buy.is_sold());
    assert_eq!(value(rest.quantity), (6, 0));
}

#[test]
fn stock_buy_sold_whole_keeps_its_trade() {
    let mut buy = buy_of_ten();
    let source = buy.sell(Decimal::from_int(10), dec(2, 0)).unwrap();
    assert!(buy.is_sold());
    assert_eq!(value(source.multiplier), (2, 0));
    match source.type_ {
        StockSource::Trade { volume, commission, .. } => {
            assert_eq!(value(volume.amount), (1000, 0));
            assert_eq!(value(commission.amount), (1, 0));
        },
        StockSource::CorporateAction => panic!("a trade expected"),
    }
    assert_eq!(source.execution_date, date(2020, 3, 4));
}

#[test]
fn stock_buy_refuses_to_sell_more_than_unsold() {
    let mut buy = buy_of_ten();
    buy.sell(Decimal::from_int(7), Decimal::one()).unwrap();
    assert!(matches!(buy.try_sell(Decimal::from_int(4), Decimal::one()), Err(Error::InsufficientQuantity)));
    assert_eq!(value(buy.sold), (7, 0));
    assert!(buy.try_sell(Decimal::from_int(3), Decimal::one()).is_ok());
    assert!(buy.is_sold());
}

#[test]
fn stock_buy_sells_add_up_across_scales() {
    let mut buy = buy_of_ten();
    buy.try_sell(dec(25, 1), Decimal::one()).unwrap();
    assert_eq!(buy.sold.mantissa(), 25);
    assert_eq!(buy.sold.scale(), 1);
    buy.try_sell(dec(125, 2), Decimal::one()).unwrap();
    assert_eq!((buy.sold.mantissa(), buy.sold.scale()), (375, 2));
    assert_eq!((buy.get_unsold().mantissa(), buy.get_unsold().scale()), (625, 2));
    assert!(!buy.is_sold());
    buy.try_sell(dec(625, 2), Decimal::one()).unwrap();
    assert!(buy.is_sold());
    assert_eq!(value(buy.get_unsold()), (0, 0));
}

#[test]
fn stock_buy_of_a_corporate_action() {
    let cost = PurchaseTotalCost::new_from_trade(date(2020, 3, 2), date(2020, 3, 4), usd(300), usd(0));
    let mut buy = StockBuy::new_corporate_action(
        "SPLT", Decimal::from_int(3), cost, DateOptTime::from_date(date(2021, 1, 1)), date(2021, 1, 1));
    assert!(!buy.margin);
    let source = buy.sell(Decimal::one(), Decimal::one()).unwrap();
    assert!(matches!(source.type_, StockSource::CorporateAction));
    let cost = source.cost.calculate(None, Currency::usd(), &FixedRates).unwrap();
    assert_eq!(value(cost.amount), (100, 0));
}

fn sell_of_ten() -> StockSell {
    StockSell::new_trade(
        "AAPL", Decimal::from_int(10), usd(120), usd(1200), usd(1),
        date(2021, 6, 1), date(2021, 6, 3), false, false)
}

#[test]
fn stock_sell_processing() {
    let mut sell = sell_of_ten();
    assert!(!sell.is_processed());
    let mut buy = buy_of_ten();
    let half = buy.sell(Decimal::from_int(5), Decimal::one()).unwrap();
    assert!(matches!(sell.try_process(vec![half]), Err(Error::Inconsistency)));
    assert!(!sell.is_processed());

    let rest = buy.sell(Decimal::from_int(5), Decimal::one()).unwrap();
    let mut other = buy_of_ten();
    let first = other.sell(Decimal::from_int(5), Decimal::one()).unwrap();
    let sources = vec![first, rest];
    assert_eq!(value(total_quantity(&sources).unwrap()), (10, 0));
    sell.try_process(sources).unwrap();
    assert!(sell.is_processed());
    let mut more = buy_of_ten();
    let extra = more.sell(Decimal::from_int(10), Decimal::one()).unwrap();
    assert!(matches!(sell.try_process(vec![extra]), Err(Error::Inconsistency)));
}

fn processed_sell() -> StockSell {
    let mut sell = sell_of_ten();
    let mut buy = buy_of_ten();
    let source = buy.sell(Decimal::from_int(10), Decimal::one()).unwrap();
    sell.process(vec![source]);
    sell
}

#[test]
fn stock_sell_calculation() {
    let sell = processed_sell();
    let details = sell.calculate(&Russia, 2021, &[], &FixedRates).unwrap();
    assert_eq!(value(details.revenue.amount), (1200, 0));
    assert_eq!(value(details.local_revenue.amount), (90000, 0));
    assert_eq!(value(details.local_commission.amount), (75, 0));
    assert_eq!(value(details.purchase_local_cost.amount), (75075, 0));
    assert_eq!(value(details.total_local_cost.amount), (75150, 0));
    assert_eq!(value(details.profit.amount), (198, 0));
    assert_eq!(details.profit.currency, Currency::usd());
    assert_eq!(value(details.local_profit.amount), (14850, 0));
    assert_eq!(value(details.taxable_local_profit.amount), (14850, 0));
    assert_eq!(value(details.tax_to_pay.amount), (1931, 0));
    assert_eq!(details.tax_to_pay.currency, Currency::rub());
    assert_eq!(value(details.tax_deduction.amount), (0, 0));
    assert!(details.real_tax_ratio.is_some());
    assert!(details.real_profit_ratio.is_some());
    let ratio = details.real_local_profit_ratio.unwrap();
    assert!(ratio.equals(&dec(12919, 0).checked_div(dec(75075, 0)).unwrap()));
    assert_eq!(details.fifo.len(), 1);
    assert!(!details.fifo[0].tax_exemption_applied);
    assert!(!details.tax_exemption_applied());
    match details.fifo[0].source {
        StockSourceDetails::Trade { cost, local_cost, local_commission, .. } => {
            assert_eq!(value(cost.amount), (1000, 0));
            assert_eq!(value(local_cost.amount), (75000, 0));
            assert_eq!(value(local_commission.amount), (75, 0));
        },
        StockSourceDetails::CorporateAction => panic!("a trade expected"),
    }
}

#[test]
fn stock_sell_with_forced_tax_exemption() {
    let sell = processed_sell();
    let exemptions = [TaxExemption { exemptible: true, force: true }];
    let details = sell.calculate(&Russia, 2021, &exemptions, &FixedRates).unwrap();
    assert!(details.fifo[0].tax_exemption_applied);
    assert!(details.tax_exemption_applied());
    assert_eq!(value(details.taxable_local_profit.amount), (0, 0));
    assert_eq!(value(details.tax_to_pay.amount), (0, 0));
    assert_eq!(value(details.tax_deduction.amount), (1931, 0));
    assert_eq!(value(details.local_profit.amount), (14850, 0));
}

#[test]
fn stock_sell_with_exemption_for_profit() {
    let sell = processed_sell();
    let exemptions = [TaxExemption { exemptible: true, force: false }];
    let details = sell.calculate(&Russia, 2021, &exemptions, &FixedRates).unwrap();
    assert!(details.fifo[0].tax_exemption_applied);
    assert_eq!(value(details.tax_to_pay.amount), (0, 0));
}

#[test]
fn stock_sell_calculation_needs_a_processed_trade() {
    let unprocessed = sell_of_ten();
    assert!(matches!(unprocessed.try_calculate(&Russia, 2021, &[], &FixedRates), Err(Error::Inconsistency)));
    let corporate = StockSell::new_corporate_action("AAPL", Decimal::from_int(10), date(2021, 6, 1), date(2021, 6, 1));
    assert!(matches!(corporate.type_, StockSellType::CorporateAction));
    assert!(matches!(corporate.try_calculate(&Russia, 2021, &[], &FixedRates), Err(Error::Inconsistency)));
    let processed = processed_sell();
    assert!(processed.try_calculate(&Russia, 2021, &[], &FixedRates).is_ok());
}

#[test]
fn stock_sell_calculation_error_names_the_sell() {
    let mut sell = StockSell::new_trade(
        "SAP", Decimal::from_int(10), Cash::new(Currency::new("EUR"), Decimal::from_int(100)),
        Cash::new(Currency::new("EUR"), Decimal::from_int(1000)), usd(1),
        date(2021, 6, 1), date(2021, 6, 3), false, false);
    let mut buy = buy_of_ten();
    sell.process(vec![buy.sell(Decimal::from_int(10), Decimal::one()).unwrap()]);
    match sell.calculate(&Russia, 2021, &[], &FixedRates) {
        Err(Error::SellCalculation { symbol, date: when, cause }) => {
            assert_eq!(symbol, "SAP");
            assert_eq!(when, date(2021, 6, 1));
            assert!(matches!(*cause, Error::ConversionFailed(_)));
        },
        _ => panic!("a failed calculation expected"),
    }
}

#[test]
fn fifo_details_prices() {
    let mut buy = buy_of_ten();
    let source = buy.sell(Decimal::from_int(10), Decimal::one()).unwrap();
    let details = FifoDetails::new(&source, Currency::rub(), &FixedRates).unwrap();
    assert_eq!(value(details.price(Currency::usd(), &FixedRates).unwrap().amount), (100, 0));
    assert_eq!(value(details.price(Currency::rub(), &FixedRates).unwrap().amount), (7500, 0));
    assert_eq!(value(details.cost(Currency::usd(), &FixedRates).unwrap().amount), (1000, 0));
    assert_eq!(value(details.total_cost(Currency::usd(), &FixedRates).unwrap().amount), (1001, 0));
}

#[test]
fn price_of_stocks() {
    assert_eq!(value(calculate_price(Decimal::from_int(4), usd(10)).unwrap().amount), (25, 1));
    assert!(matches!(calculate_price(Decimal::zero(), usd(10)), Err(Error::DivisionByZero)));
}

#[test]
fn conversions_are_rounded_to_cents() {
    assert_eq!(value(rounded_conversion(Ok(dec(12345, 3))).unwrap()), (1235, 2));
    assert!(matches!(rounded_conversion(Err(Error::Overflow)), Err(Error::Overflow)));
    let cash = rounded_cash_conversion(Ok(dec(-12344, 3)), Currency::rub()).unwrap();
    assert_eq!(cash.currency, Currency::rub());
    assert_eq!(value(cash.amount), (-1234, 2));
    let converted = convert_to_cash_rounding(&FixedRates, date(2021, 1, 1), Cash::new(Currency::usd(), dec(1001, 3)), Currency::rub()).unwrap();
    assert_eq!(value(converted.amount), (7508, 2));
}

#[test]
fn purchase_total_cost_is_trade_and_commission() {
    let mut cost = PurchaseTotalCost::new_from_trade(date(2020, 3, 2), date(2020, 3, 4), usd(1000), usd(1));
    let other = PurchaseTotalCost::new_from_trade(date(2020, 4, 1), date(2020, 4, 3), usd(250), Cash::new(Currency::usd(), dec(75, 2)));
    cost.add(&other);
    let total = cost.calculate(None, Currency::usd(), &FixedRates).unwrap();
    let trade = cost.calculate(Some(PurchaseCostType::Trade), Currency::usd(), &FixedRates).unwrap();
    let fee = cost.calculate(Some(PurchaseCostType::Commission), Currency::usd(), &FixedRates).unwrap();
    assert_eq!(value(trade.amount), (1250, 0));
    assert_eq!(value(fee.amount), (175, 2));
    assert_eq!(value(total.amount), (125175, 2));
}

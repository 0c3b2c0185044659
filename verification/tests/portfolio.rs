use investments::analysis::select_portfolios;
use investments::cash::Currency;
use investments::decimal::Decimal;
use investments::error::Error;
use investments::ordered_map::{str_less, OrderedMap};
use investments::portfolio_statistics::{
    LtoDeduction, LtoStatistics, NetLtoDeduction, PortfolioCurrencyStatistics, PortfolioStatistics,
    StatisticsReport,
};
use investments::text::str_equals;
use investments::trades::{Country, IncomeType};

struct Russia;

impl Country for Russia {
    fn currency(&self) -> Currency {
        Currency::rub()
    }

    fn tax_to_pay(&self, _income_type: IncomeType, _year: i32, _income: Decimal, _paid_tax: Option<Decimal>) -> Decimal {
        Decimal::zero()
    }
}

fn value(d: Decimal) -> (i128, u32) {
    let n = d.normalize();
    (n.mantissa(), n.scale())
}

#[test]
fn statistics_start_empty() {
    let statistics: PortfolioStatistics<Russia, ()> = PortfolioStatistics::new(Russia);
    let currencies: Vec<&str> = statistics.currencies.iter().map(|s| s.currency.as_str()).collect();
    assert_eq!(currencies, vec!["USD", "RUB"]);
    assert_eq!(statistics.currencies[0].assets.len(), 0);
    assert!(statistics.currencies[1].performance.is_none());
    assert!(statistics.currencies[1].projected_taxes.is_zero());
    assert!(statistics.lto.is_none());
    assert_eq!(statistics.asset_groups.len(), 0);
}

#[test]
fn assets_add_up() {
    let mut statistics: PortfolioCurrencyStatistics<()> = PortfolioCurrencyStatistics::new("USD");
    statistics.add_assets("ib", "VTI", Decimal::from_int(100));
    statistics.add_assets("firstrade", "VTI", Decimal::from_int(50));
    statistics.add_assets("ib", "BND", Decimal::new(255, 1).unwrap());
    assert_eq!(value(*statistics.assets.get("VTI").unwrap()), (150, 0));
    assert_eq!(value(*statistics.assets.get("BND").unwrap()), (255, 1));
    assert_eq!(value(*statistics.brokers.get("ib").unwrap()), (1255, 1));
    assert_eq!(value(*statistics.brokers.get("firstrade").unwrap()), (50, 0));
    assert!(statistics.assets.get("AGG").is_none());
    let instruments: Vec<&str> = statistics.assets.entries().iter().map(|(k, _)| k.as_str()).collect();
    assert_eq!(instruments, vec!["BND", "VTI"]);
    let max = Decimal::new(79228162514264337593543950335, 0).unwrap();
    assert!(matches!(statistics.try_add_assets("ib", "VTI", max), Err(Error::Overflow)));
    assert_eq!(value(*statistics.assets.get("VTI").unwrap()), (150, 0));
    assert!(statistics.try_add_assets("ib", "AGG", Decimal::one()).is_ok());
}

#[test]
fn statistics_report() {
    let mut statistics: PortfolioStatistics<Russia, u32> = PortfolioStatistics::new(Russia);
    for s in statistics.currencies.iter_mut() {
        s.performance = Some(7);
    }
    let mut lto = LtoStatistics::new(LtoDeduction { deduction: Decimal::from_int(10) });
    lto.apply(2021, NetLtoDeduction { deduction: Decimal::one(), loss: Decimal::zero(), applied_above_limit: Decimal::from_int(3) });
    lto.apply(2020, NetLtoDeduction { deduction: Decimal::one(), loss: Decimal::from_int(5), applied_above_limit: Decimal::zero() });
    statistics.lto = Some(lto);
    let report = statistics.report();
    assert_eq!(report.len(), 5);
    assert!(matches!(report[0], StatisticsReport::LtoLoss { year: 2020, .. }));
    assert!(matches!(report[1], StatisticsReport::LtoAboveLimit { year: 2021, .. }));
    assert!(matches!(report[2], StatisticsReport::Performance { index: 0 }));
    assert!(matches!(report[3], StatisticsReport::Performance { index: 1 }));
    assert!(matches!(report[4], StatisticsReport::ProjectedLto { .. }));
}

#[test]
fn statistics_processing_stops_at_an_error() {
    let mut statistics: PortfolioStatistics<Russia, ()> = PortfolioStatistics::new(Russia);
    let mut seen = Vec::new();
    statistics.process(|s| { seen.push(s.currency.clone()); Ok(()) }).unwrap();
    assert_eq!(seen, vec!["USD", "RUB"]);
    let mut calls = 0;
    let result = statistics.process(|s| {
        calls += 1;
        s.projected_taxes = Decimal::one();
        Err(Error::Inconsistency)
    });
    assert!(matches!(result, Err(Error::Inconsistency)));
    assert_eq!(calls, 1);
    assert_eq!(statistics.currencies.len(), 2);
    assert!(!statistics.currencies[0].projected_taxes.is_zero());
    assert!(statistics.currencies[1].projected_taxes.is_zero());
}

#[test]
fn portfolio_selection() {
    let names = vec!["ib".to_owned(), "firstrade".to_owned()];
    assert_eq!(select_portfolios(&names, None).unwrap(), vec![0, 1]);
    assert_eq!(select_portfolios(&names, Some("firstrade")).unwrap(), vec![1]);
    assert!(matches!(select_portfolios(&names, Some("tinkoff")), Err(Error::UnknownPortfolio(name)) if name == "tinkoff"));
    assert!(matches!(select_portfolios(&Vec::new(), None), Err(Error::NoPortfolios)));
}

#[test]
fn ordered_map_and_texts() {
    let mut map: OrderedMap<u32> = OrderedMap::new();
    map.insert("b", 2);
    map.insert("a", 1);
    map.insert("c", 3);
    map.insert("b", 20);
    let keys: Vec<(&str, u32)> = map.entries().iter().map(|(k, v)| (k.as_str(), *v)).collect();
    assert_eq!(keys, vec![("a", 1), ("b", 20), ("c", 3)]);
    assert!(str_less("ab", "b") && str_less("a", "ab") && !str_less("b", "ab") && !str_less("a", "a"));
    assert!(str_equals("abc", "abc") && !str_equals("abc", "abd") && !str_equals("ab", "abc"));
}

#[test]
fn lto_deductions_are_kept_by_year() {
    let mut lto = LtoStatistics::new(LtoDeduction { deduction: Decimal::zero() });
    let deduction = |n: i64| NetLtoDeduction { deduction: Decimal::from_int(n), loss: Decimal::zero(), applied_above_limit: Decimal::zero() };
    lto.apply(2022, deduction(1));
    lto.apply(2019, deduction(2));
    lto.apply(2021, deduction(3));
    lto.apply(2019, deduction(4));
    let years: Vec<i32> = lto.applied().iter().map(|(year, _)| *year).collect();
    assert_eq!(years, vec![2019, 2021, 2022]);
    assert_eq!(lto.applied()[0].1.deduction.mantissa(), 4);
    assert!(lto.projected().deduction.is_zero());
}

//! The trades section of an Interactive Brokers activity statement: each order
//! record becomes a forex trade, a stock buy or a stock sell.

use vstd::prelude::*;

use crate::cash::{Cash, Currency};
use crate::decimal::{decimal_from_str, lemma_normal_form_sign, normal_form, Decimal};
use crate::error::Error;
use crate::text::str_equals;
use crate::time::{date_time_from_text, parse_date_time, Date, DateOptTime, DateTime};
use crate::trades::{ForexTrade, StockBuy, StockSell};

verus! {

/// What a decimal field must be.
#[derive(Clone, Copy, Debug, PartialEq, Eq, Structural)]
pub enum DecimalRestrictions {
    No,
    NonZero,
    PositiveOrZero,
    NegativeOrZero,
    StrictlyPositive,
    StrictlyNegative,
}

pub open spec fn satisfies(v: (int, nat), restrictions: DecimalRestrictions) -> bool {
    match restrictions {
        DecimalRestrictions::No => true,
        DecimalRestrictions::NonZero => v.0 != 0,
        DecimalRestrictions::PositiveOrZero => v.0 >= 0,
        DecimalRestrictions::NegativeOrZero => v.0 <= 0,
        DecimalRestrictions::StrictlyPositive => v.0 > 0,
        DecimalRestrictions::StrictlyNegative => v.0 < 0,
    }
}

/// The decimal in a text, where it is one and meets the restrictions.
pub open spec fn restricted_decimal(text: Seq<char>, restrictions: DecimalRestrictions) -> Option<(int, nat)> {
    match decimal_from_str(text) {
        Some(v) => if satisfies(v, restrictions) { Some(v) } else { None },
        None => None,
    }
}

/// The decimal in `text`, which must meet the restrictions.
pub fn parse_decimal(text: &str, restrictions: DecimalRestrictions) -> (r: Result<Decimal, Error>)
    ensures
        match restricted_decimal(text@, restrictions) {
            Some(v) => r matches Ok(d) && d@ == v,
            None => r matches Err(Error::InvalidValue(t)) && t@ == text@,
        },
{
    let value = match Decimal::parse(text) {
        Some(value) => value,
        None => return Err(Error::InvalidValue(text.to_owned())),
    };
    let valid = match restrictions {
        DecimalRestrictions::No => true,
        DecimalRestrictions::NonZero => !value.is_zero(),
        DecimalRestrictions::PositiveOrZero => !value.is_negative(),
        DecimalRestrictions::NegativeOrZero => !value.is_positive(),
        DecimalRestrictions::StrictlyPositive => value.is_positive(),
        DecimalRestrictions::StrictlyNegative => value.is_negative(),
    };
    if valid {
        Ok(value)
    } else {
        Err(Error::InvalidValue(text.to_owned()))
    }
}

/// A record of a statement section: named fields.
#[derive(Clone, Debug)]
pub struct Record {
    pub fields: Vec<(String, String)>,
}

/// The value of the first field with the given name.
pub open spec fn field_value(fields: Seq<(String, String)>, name: Seq<char>) -> Option<Seq<char>>
    decreases fields.len(),
{
    if fields.len() == 0 {
        None
    } else if fields[0].0@ == name {
        Some(fields[0].1@)
    } else {
        field_value(fields.drop_first(), name)
    }
}

/// The cash in a field: its decimal, which must meet the restrictions, in the
/// given currency.
pub open spec fn field_cash(fields: Seq<(String, String)>, name: Seq<char>, restrictions: DecimalRestrictions) -> Option<(int, nat)> {
    match field_value(fields, name) {
        Some(text) => restricted_decimal(text, restrictions),
        None => None,
    }
}

impl Record {
    /// The value of the field `name`.
    pub fn get_value(&self, name: &str) -> (r: Result<&str, Error>)
        ensures
            match field_value(self.fields@, name@) {
                Some(v) => r matches Ok(s) && s@ == v,
                None => r matches Err(Error::MissingField(n)) && n@ == name@,
            },
    {
        let mut i: usize = 0;
        assert(self.fields@.skip(0) =~= self.fields@);
        while i < self.fields.len()
            invariant
                i <= self.fields@.len(),
                field_value(self.fields@.skip(i as int), name@) == field_value(self.fields@, name@),
            decreases self.fields@.len() - i,
        {
            assert(self.fields@.skip(i as int).drop_first() =~= self.fields@.skip(i + 1));
            if str_equals(self.fields[i].0.as_str(), name) {
                return Ok(self.fields[i].1.as_str());
            }
            i = i + 1;
        }
        Err(Error::MissingField(name.to_owned()))
    }

    /// The field `name` holds `expected`.
    pub fn check_value(&self, name: &str, expected: &str) -> (r: Result<(), Error>)
        ensures
            r is Ok <==> field_value(self.fields@, name@) == Some(expected@),
    {
        let value = self.get_value(name)?;
        if str_equals(value, expected) {
            Ok(())
        } else {
            Err(Error::InvalidValue(value.to_owned()))
        }
    }

    /// The date and time in the field `name`.
    pub fn parse_date_time(&self, name: &str) -> (r: Result<DateTime, Error>)
        ensures
            r matches Ok(t) ==> field_value(self.fields@, name@) matches Some(text)
                && date_time_from_text(text) == Some((t.date@, t.time@.0, t.time@.1)),
            r is Err ==> field_value(self.fields@, name@) is None
                || date_time_from_text(field_value(self.fields@, name@).unwrap()) is None,
    {
        let value = self.get_value(name)?;
        match parse_date_time(value) {
            Some(t) => Ok(t),
            None => Err(Error::InvalidValue(value.to_owned())),
        }
    }

    /// The cash in the field `name`, in `currency`.
    pub fn parse_cash(&self, name: &str, currency: Currency, restrictions: DecimalRestrictions) -> (r: Result<Cash, Error>)
        ensures
            match field_cash(self.fields@, name@, restrictions) {
                Some(v) => r matches Ok(c) && c.currency == currency && c.amount@ == v,
                None => r is Err,
            },
    {
        let value = self.get_value(name)?;
        let amount = parse_decimal(value, restrictions)?;
        Ok(Cash::new(currency, amount))
    }
}

/// What the parser of a statement knows beyond a record.
pub trait StatementParser {
    /// The base currency of the account.
    fn base_currency(&self) -> Result<Currency, Error>;

    /// The execution date of a trade of `symbol` concluded on `conclusion_date`.
    fn get_execution_date(&self, symbol: &str, conclusion_date: Date) -> Date;
}

/// The trades read from a statement.
pub struct TradeStatement {
    pub forex_trades: Vec<ForexTrade>,
    pub stock_buys: Vec<StockBuy>,
    pub stock_sells: Vec<StockSell>,
}

impl TradeStatement {
    pub fn new() -> (r: TradeStatement)
        ensures
            r.forex_trades@.len() == 0,
            r.stock_buys@.len() == 0,
            r.stock_sells@.len() == 0,
    {
        TradeStatement { forex_trades: Vec::new(), stock_buys: Vec::new(), stock_sells: Vec::new() }
    }
}

/// The parser of the trades section.
pub struct TradesParser {}

/// The symbol of a forex trade is a currency pair written `BASE.QUOTE`: the
/// position of its only dot.
pub open spec fn pair_separator(symbol: Seq<char>, dot: int) -> bool {
    &&& 0 <= dot < symbol.len()
    &&& symbol[dot] == '.'
    &&& forall|i: int| 0 <= i < symbol.len() && i != dot ==> symbol[i] != '.'
}

/// The header of an order record: its asset category, its symbol and its conclusion
/// time (day number, seconds since midnight, nanoseconds), where the record is an
/// order and has them.
pub open spec fn order_header(fields: Seq<(String, String)>) -> Option<(Seq<char>, Seq<char>, (int, int, int))> {
    if field_value(fields, "DataDiscriminator"@) == Some("Order"@) {
        match (field_value(fields, "Asset Category"@), field_value(fields, "Symbol"@), field_value(fields, "Date/Time"@)) {
            (Some(category), Some(symbol), Some(time)) => match date_time_from_text(time) {
                Some(t) => Some((category, symbol, t)),
                None => None,
            },
            _ => None,
        }
    } else {
        None
    }
}

/// The base and the quote currency codes of a forex symbol `BASE.QUOTE`: the text
/// before and after its only dot.
pub open spec fn forex_pair(symbol: Seq<char>) -> Option<(Seq<char>, Seq<char>)> {
    if exists|dot: int| pair_separator(symbol, dot) {
        let dot = choose|dot: int| pair_separator(symbol, dot);
        Some((symbol.take(dot), symbol.skip(dot + 1)))
    } else {
        None
    }
}

/// The forex trade of the pair `base`/`quote` with the quantity `quantity` in the
/// base currency and the proceeds `volume` in the quote currency: the amount given
/// away and the amount received, and the commission `fee` (not above zero) in
/// `commission_currency`, as a payment.
pub open spec fn forex_trade_of(
    trade: ForexTrade, base: Seq<char>, quote: Seq<char>, quantity: (int, nat), volume: (int, nat),
    commission_currency: Currency, fee: (int, nat), time: DateTime,
) -> bool {
    &&& if quantity.0 > 0 {
        trade.from.currency@ == quote && trade.from.amount@ == (-volume.0, volume.1)
            && trade.to.currency@ == base && trade.to.amount@ == quantity
    } else {
        trade.from.currency@ == base && trade.from.amount@ == (-quantity.0, quantity.1)
            && trade.to.currency@ == quote && trade.to.amount@ == volume
    }
    &&& trade.commission.currency == commission_currency
    &&& trade.commission.amount@ == (-fee.0, fee.1)
    &&& trade.conclusion_time.date == time.date
    &&& trade.conclusion_time.time is None
}

/// `r` is what a forex record of the symbol `symbol` gives, where the base currency
/// of the account is `commission_currency` as the statement parser answered it:
/// - a symbol that is not a pair gives `Error::InvalidForexPair`;
/// - a quantity or proceeds missing, zero or not a number gives an error;
/// - a quantity and proceeds of one sign give `Error::UnexpectedForexValues` with
///   their texts;
/// - then the parser's error is passed on, and a commission in the account's
///   currency that is missing or above zero is an error;
/// - else the trade: the amount given away, the amount received (both not below
///   zero) and the commission as a payment.
pub open spec fn forex_trade_read(
    fields: Seq<(String, String)>, symbol: Seq<char>, time: DateTime,
    commission_currency: Result<Currency, Error>, r: Result<ForexTrade, Error>,
) -> bool {
    match forex_pair(symbol) {
        None => (r matches Err(Error::InvalidForexPair(s)) && s@ == symbol),
        Some((base, quote)) => {
            match (field_cash(fields, "Proceeds"@, DecimalRestrictions::NonZero),
                field_cash(fields, "Quantity"@, DecimalRestrictions::NonZero)) {
                (Some(volume), Some(quantity)) => if (quantity.0 > 0 && volume.0 > 0) || (quantity.0 < 0 && volume.0 < 0) {
                    r matches Err(Error::UnexpectedForexValues { quantity: q, volume: v })
                        && Some(q@) == field_value(fields, "Quantity"@) && Some(v@) == field_value(fields, "Proceeds"@)
                } else {
                    match commission_currency {
                        Err(e) => r == Err::<ForexTrade, Error>(e),
                        Ok(c) => match field_cash(fields, "Comm in "@ + c@, DecimalRestrictions::NegativeOrZero) {
                            None => r is Err,
                            Some(fee) => (r matches Ok(trade)
                                && forex_trade_of(trade, base, quote, quantity, volume, c, fee, time)),
                        },
                    }
                },
                _ => r is Err,
            }
        }
    }
}

/// The statement after reading a forex record: the trade read is added to the
/// forex trades, an error is returned; nothing else changes.
pub open spec fn forex_trade_recorded(
    old_statement: TradeStatement, new_statement: TradeStatement, read: Result<ForexTrade, Error>, r: Result<(), Error>,
) -> bool {
    &&& match read {
        Ok(trade) => r is Ok && new_statement.forex_trades@ == old_statement.forex_trades@.push(trade),
        Err(e) => r == Err::<(), Error>(e) && new_statement.forex_trades@ == old_statement.forex_trades@,
    }
    &&& new_statement.stock_buys@ == old_statement.stock_buys@
    &&& new_statement.stock_sells@ == old_statement.stock_sells@
}

/// What reading a forex record does, where the statement parser answered
/// `commission_currency` when asked for the base currency of the account.
pub open spec fn forex_record_read<P: StatementParser>(
    parser: &P, old_statement: TradeStatement, new_statement: TradeStatement, fields: Seq<(String, String)>,
    symbol: Seq<char>, time: DateTime, r: Result<(), Error>,
) -> bool {
    exists|commission_currency: Result<Currency, Error>, read: Result<ForexTrade, Error>|
        #[trigger] forex_trade_read(fields, symbol, time, commission_currency, read)
        && call_ensures(P::base_currency, (parser,), commission_currency)
        && forex_trade_recorded(old_statement, new_statement, read, r)
}

impl TradesParser {
    /// The records of these data types are skipped.
    pub fn skip_data_types(&self) -> (r: Option<Vec<String>>)
        ensures
            r matches Some(types) && types@.len() == 2 && types@[0]@ == "SubTotal"@ && types@[1]@ == "Total"@,
    {
        let mut types: Vec<String> = Vec::new();
        types.push("SubTotal".to_owned());
        types.push("Total".to_owned());
        Some(types)
    }

    /// Reads an order record into the statement: a forex trade for the asset
    /// category `Forex`, a stock trade for `Stocks`. A record that is not an order
    /// or lacks its category, symbol or conclusion time is an error, another
    /// category is `Error::UnsupportedAssetCategory` with its name; either leaves
    /// the statement unchanged.
    pub fn parse<P: StatementParser>(&mut self, parser: &P, statement: &mut TradeStatement, record: &Record) -> (r: Result<(), Error>)
        ensures
            order_header(record.fields@) is None ==> r is Err && *final(statement) == *old(statement),
            order_header(record.fields@) matches Some((category, symbol, time)) ==> (category == "Forex"@ ==>
                exists|t: DateTime| (t.date@, t.time@.0, t.time@.1) == time
                    && #[trigger] forex_record_read(parser, *old(statement), *final(statement), record.fields@, symbol, t, r)),
            order_header(record.fields@) matches Some((category, symbol, time)) ==> (category == "Stocks"@ ==>
                exists|t: DateTime, s: &str| (t.date@, t.time@.0, t.time@.1) == time && s@ == symbol
                    && #[trigger] stock_record_read(parser, *old(statement), *final(statement), record.fields@, s, t, r)),
            order_header(record.fields@) matches Some((category, _, _)) ==> (category != "Forex"@ && category != "Stocks"@ ==>
                (r matches Err(Error::UnsupportedAssetCategory(c)) && c@ == category) && *final(statement) == *old(statement)),
    {
        record.check_value("DataDiscriminator", "Order")?;
        let asset_category = record.get_value("Asset Category")?;
        let symbol = record.get_value("Symbol")?;
        let conclusion_time = record.parse_date_time("Date/Time")?;
        let ghost time = (conclusion_time.date@, conclusion_time.time@.0, conclusion_time.time@.1);
        assert(order_header(record.fields@) == Some((asset_category@, symbol@, time)));
        proof {
            reveal_strlit("Forex");
            reveal_strlit("Stocks");
            assert("Forex"@.len() != "Stocks"@.len());
        }

        if str_equals(asset_category, "Forex") {
            let r = parse_forex_record(parser, statement, record, symbol, conclusion_time);
            proof {
                let h = order_header(record.fields@).unwrap();
                assert(h.1 == symbol@ && h.2 == time);
                assert(forex_record_read(parser, *old(statement), *final(statement), record.fields@, h.1, conclusion_time, r));
            }
            r
        } else if str_equals(asset_category, "Stocks") {
            let r = parse_stock_record(parser, statement, record, symbol, conclusion_time);
            proof {
                let h = order_header(record.fields@).unwrap();
                assert(h.1 == symbol@ && h.2 == time);
                assert(stock_record_read(parser, *old(statement), *final(statement), record.fields@, symbol, conclusion_time, r));
            }
            r
        } else {
            Err(Error::UnsupportedAssetCategory(asset_category.to_owned()))
        }
    }
}

/// The position of the only dot in `symbol`, if it has exactly one.
fn find_pair_separator(symbol: &str) -> (r: Option<usize>)
    ensures
        match r {
            Some(dot) => pair_separator(symbol@, dot as int),
            None => forall|dot: int| !pair_separator(symbol@, dot),
    },
{
    let length = symbol.unicode_len();
    let mut found: Option<usize> = None;
    for i in 0..length
        invariant
            length == symbol@.len(),
            match found {
                Some(dot) => dot < i && symbol@[dot as int] == '.'
                    && forall|j: int| 0 <= j < i && j != dot ==> symbol@[j] != '.',
                None => forall|j: int| 0 <= j < i ==> symbol@[j] != '.',
            },
    {
        if symbol.get_char(i) == '.' {
            if found.is_some() {
                return None;
            }
            found = Some(i);
        }
    }
    found
}

/// Reads a forex trade of the currency pair `symbol` (`BASE.QUOTE`). The statement
/// parser gives the base currency of the account, in which the commission is paid:
/// `forex_trade_from_record` states what comes of each answer.
pub fn parse_forex_record<P: StatementParser>(
    parser: &P, statement: &mut TradeStatement, record: &Record, symbol: &str, conclusion_time: DateTime,
) -> (r: Result<(), Error>)
    ensures
        forex_record_read(parser, *old(statement), *final(statement), record.fields@, symbol@, conclusion_time, r),
{
    let commission_currency = parser.base_currency();
    assert(call_ensures(P::base_currency, (parser,), commission_currency));
    let read = forex_trade_from_record(record, symbol, conclusion_time, commission_currency);
    let ghost old_statement = *statement;
    let r = match read {
        Ok(trade) => {
            statement.forex_trades.push(trade);
            Ok(())
        },
        Err(e) => Err(e),
    };
    assert(forex_trade_recorded(old_statement, *statement, read, r));
    assert(forex_trade_read(record.fields@, symbol@, conclusion_time, commission_currency, read));
    r
}

/// The forex trade of the currency pair `symbol` (`BASE.QUOTE`) that a record
/// describes, where `commission_currency` is the base currency of the account as
/// the statement parser answered it.
pub fn forex_trade_from_record(
    record: &Record, symbol: &str, conclusion_time: DateTime, commission_currency: Result<Currency, Error>,
) -> (r: Result<ForexTrade, Error>)
    ensures
        forex_trade_read(record.fields@, symbol@, conclusion_time, commission_currency, r),
{
    let dot = match find_pair_separator(symbol) {
        Some(dot) => dot,
        None => return Err(Error::InvalidForexPair(symbol.to_owned())),
    };
    let length = symbol.unicode_len();
    proof {
        assert forall|d: int| pair_separator(symbol@, d) implies d == dot by {
            if d != dot {
                assert(symbol@[d] != '.');
            }
        }
        assert(forex_pair(symbol@) == Some((symbol@.take(dot as int), symbol@.skip(dot + 1))));
    }
    let base_code = symbol.substring_char(0, dot);
    let quote_code = symbol.substring_char(dot + 1, length);
    assert(base_code@ =~= symbol@.take(dot as int));
    assert(quote_code@ =~= symbol@.skip(dot + 1));
    let base = Currency::new(base_code);
    let quote = Currency::new(quote_code);

    let volume = record.parse_cash("Proceeds", quote, DecimalRestrictions::NonZero)?;

    // The quantity may be rounded, which makes the cash flow report slightly inaccurate.
    let quantity = record.parse_cash("Quantity", base, DecimalRestrictions::NonZero)?;

    let (from, to) = if quantity.is_positive() {
        (volume.neg(), quantity)
    } else {
        (quantity.neg(), volume)
    };
    if from.is_negative() || to.is_negative() {
        let quantity_text = record.get_value("Quantity")?;
        let volume_text = record.get_value("Proceeds")?;
        return Err(Error::UnexpectedForexValues { quantity: quantity_text.to_owned(), volume: volume_text.to_owned() });
    }

    let commission_currency = commission_currency?;
    let mut commission_field = "Comm in ".to_owned();
    commission_field.append(commission_currency.code().as_str());
    let commission = record.parse_cash(
        commission_field.as_str(), commission_currency, DecimalRestrictions::NegativeOrZero)?;

    Ok(ForexTrade::new(DateOptTime::from_date_time(conclusion_time), from, to, commission.neg()))
}

/// The fields of a stock record: the currency code, the price (above zero), the
/// commission (not above zero), the quantity (not zero, trailing zeros stripped)
/// and the proceeds (of the sign opposite to the quantity's).
pub open spec fn stock_record_fields(fields: Seq<(String, String)>)
    -> Option<(Seq<char>, (int, nat), (int, nat), (int, nat), (int, nat))>
{
    match field_value(fields, "Currency"@) {
        Some(code) => {
            match (field_cash(fields, "T. Price"@, DecimalRestrictions::StrictlyPositive),
                field_cash(fields, "Comm/Fee"@, DecimalRestrictions::NegativeOrZero), field_value(fields, "Quantity"@)) {
                (Some(price), Some(fee), Some(text)) => match restricted_decimal(text, DecimalRestrictions::NonZero) {
                    Some(parsed) => {
                        let quantity = normal_form(parsed);
                        let restrictions = if quantity.0 > 0 {
                            DecimalRestrictions::StrictlyNegative
                        } else {
                            DecimalRestrictions::StrictlyPositive
                        };
                        match field_cash(fields, "Proceeds"@, restrictions) {
                            Some(volume) => Some((code, price, fee, quantity, volume)),
                            None => None,
                        }
                    },
                    None => None,
                },
                _ => None,
            }
        },
        None => None,
    }
}

/// The stock trade that a record describes is added to the statement: a buy for a
/// positive quantity, a sell for a negative one, with the price, the proceeds
/// (their negation, the cost, for a buy) and the commission (negated, as a
/// payment) in the currency `code`, concluded on the day of `conclusion_time` with
/// no time of day kept; a buy has the purchase cost of its trade and nothing sold.
pub open spec fn stock_trade_recorded(
    old_statement: TradeStatement, new_statement: TradeStatement, symbol: Seq<char>, code: Seq<char>,
    quantity: (int, nat), price: (int, nat), volume: (int, nat), fee: (int, nat),
    conclusion_time: DateTime, execution_date: Date,
) -> bool {
    &&& new_statement.forex_trades@ == old_statement.forex_trades@
    &&& if quantity.0 > 0 {
        &&& new_statement.stock_buys@.len() == old_statement.stock_buys@.len() + 1
        &&& new_statement.stock_buys@.drop_last() == old_statement.stock_buys@
        &&& new_statement.stock_sells@ == old_statement.stock_sells@
        &&& {
            let buy = new_statement.stock_buys@.last();
            &&& buy.symbol@ == symbol
            &&& buy.quantity@ == quantity
            &&& buy.type_ matches crate::trades::StockSource::Trade { price: p, volume: v, commission: c }
                && p.currency@ == code && p.amount@ == price
                && v.currency@ == code && v.amount@ == (-volume.0, volume.1)
                && c.currency@ == code && c.amount@ == (-fee.0, fee.1)
                && buy.cost@ == crate::trades::trade_cost(conclusion_time.date, execution_date, v, c)
            &&& buy.sold@ == (0int, 0nat)
            &&& !buy.margin
            &&& buy.conclusion_time.date == conclusion_time.date
            &&& buy.conclusion_time.time is None
            &&& buy.execution_date == execution_date
        }
    } else {
        &&& new_statement.stock_sells@.len() == old_statement.stock_sells@.len() + 1
        &&& new_statement.stock_sells@.drop_last() == old_statement.stock_sells@
        &&& new_statement.stock_buys@ == old_statement.stock_buys@
        &&& {
            let sell = new_statement.stock_sells@.last();
            &&& sell.symbol@ == symbol
            &&& sell.quantity@ == (-quantity.0, quantity.1)
            &&& sell.type_ matches crate::trades::StockSellType::Trade { price: p, volume: v, commission: c }
                && p.currency@ == code && p.amount@ == price
                && v.currency@ == code && v.amount@ == volume
                && c.currency@ == code && c.amount@ == (-fee.0, fee.1)
            &&& !sell.margin
            &&& !sell.emulation
            &&& sell.conclusion_time.date == conclusion_time.date
            &&& sell.conclusion_time.time is None
            &&& sell.execution_date == execution_date
            &&& sell.sources@.len() == 0
        }
    }
}

/// The fields of a stock record are valid up to its quantity, which is there but
/// is not a nonzero number.
pub open spec fn stock_quantity_invalid(fields: Seq<(String, String)>) -> bool {
    &&& field_value(fields, "Currency"@) is Some
    &&& field_cash(fields, "T. Price"@, DecimalRestrictions::StrictlyPositive) is Some
    &&& field_cash(fields, "Comm/Fee"@, DecimalRestrictions::NegativeOrZero) is Some
    &&& field_value(fields, "Quantity"@) matches Some(text)
        && restricted_decimal(text, DecimalRestrictions::NonZero) is None
}

/// What reading a stock record of `symbol` does: where its fields are valid, the
/// trade is added, on the execution date that the statement parser answers for
/// the symbol and the conclusion date; else an error is returned (for a quantity
/// that is not a nonzero number `Error::UnexpectedTradeQuantity`, with the symbol
/// and the text) and the statement is unchanged.
pub open spec fn stock_record_read<P: StatementParser>(
    parser: &P, old_statement: TradeStatement, new_statement: TradeStatement, fields: Seq<(String, String)>,
    symbol: &str, time: DateTime, r: Result<(), Error>,
) -> bool {
    match stock_record_fields(fields) {
        Some((code, price, fee, quantity, volume)) => r is Ok && exists|execution_date: Date|
            call_ensures(P::get_execution_date, (parser, symbol, time.date), execution_date)
            && #[trigger] stock_trade_recorded(old_statement, new_statement, symbol@, code, quantity, price, volume,
                fee, time, execution_date),
        None => {
            &&& r is Err
            &&& new_statement.forex_trades@ == old_statement.forex_trades@
            &&& new_statement.stock_buys@ == old_statement.stock_buys@
            &&& new_statement.stock_sells@ == old_statement.stock_sells@
            &&& stock_quantity_invalid(fields) ==> (r matches Err(Error::UnexpectedTradeQuantity { symbol: s, quantity: q })
                && s@ == symbol@ && Some(q@) == field_value(fields, "Quantity"@))
        },
    }
}

/// A stock trade read from a record, buy or sell alike, carries as its commission
/// the negated Comm/Fee field of the record, in the record's currency: a payment,
/// not below zero.
pub proof fn lemma_stock_commission_is_the_negated_fee<P: StatementParser>(
    parser: &P, old_statement: TradeStatement, new_statement: TradeStatement, fields: Seq<(String, String)>,
    symbol: &str, time: DateTime,
)
    requires
        stock_record_read(parser, old_statement, new_statement, fields, symbol, time, Ok::<(), Error>(())),
    ensures
        new_statement.stock_buys@.len() + new_statement.stock_sells@.len()
            == old_statement.stock_buys@.len() + old_statement.stock_sells@.len() + 1,
        field_value(fields, "Comm/Fee"@) matches Some(text) && (decimal_from_str(text) matches Some(fee) && {
            &&& fee.0 <= 0
            &&& field_value(fields, "Currency"@) matches Some(code) && {
                &&& new_statement.stock_buys@.len() == old_statement.stock_buys@.len() + 1
                    ==> (new_statement.stock_buys@.last().type_ matches crate::trades::StockSource::Trade { commission, .. }
                    && commission.currency@ == code && commission.amount@ == (-fee.0, fee.1) && commission.amount@.0 >= 0)
                &&& new_statement.stock_sells@.len() == old_statement.stock_sells@.len() + 1
                    ==> (new_statement.stock_sells@.last().type_ matches crate::trades::StockSellType::Trade { commission, .. }
                    && commission.currency@ == code && commission.amount@ == (-fee.0, fee.1) && commission.amount@.0 >= 0)
            }
        }),
{
    let (code, price, fee, quantity, volume) = stock_record_fields(fields)->Some_0;
    let execution_date = choose|execution_date: Date|
        call_ensures(P::get_execution_date, (parser, symbol, time.date), execution_date)
        && #[trigger] stock_trade_recorded(old_statement, new_statement, symbol@, code, quantity, price, volume,
            fee, time, execution_date);
    assert(stock_trade_recorded(old_statement, new_statement, symbol@, code, quantity, price, volume, fee, time,
        execution_date));
}

/// A stock trade read from a record has positive amounts, whichever way it goes: a
/// buy (a positive Quantity field) or a sell (a negative one) of the stocks of the
/// quantity's magnitude (trailing zeros stripped), at the T. Price field, for the magnitude of the Proceeds
/// field (paid for a buy, received for a sell).
pub proof fn lemma_stock_trade_amounts_are_positive<P: StatementParser>(
    parser: &P, old_statement: TradeStatement, new_statement: TradeStatement, fields: Seq<(String, String)>,
    symbol: &str, time: DateTime,
)
    requires
        stock_record_read(parser, old_statement, new_statement, fields, symbol, time, Ok::<(), Error>(())),
    ensures
        field_value(fields, "T. Price"@) matches Some(price_text) && (decimal_from_str(price_text) matches Some(price)
        && field_value(fields, "Proceeds"@) matches Some(proceeds_text) && (decimal_from_str(proceeds_text) matches Some(proceeds)
        && field_value(fields, "Quantity"@) matches Some(quantity_text) && (decimal_from_str(quantity_text) matches Some(quantity)
        && {
            &&& quantity.0 > 0 ==> new_statement.stock_buys@.len() == old_statement.stock_buys@.len() + 1
                && new_statement.stock_buys@.last().quantity@.0 > 0
                && new_statement.stock_buys@.last().quantity@ == normal_form(quantity)
                && (new_statement.stock_buys@.last().type_ matches crate::trades::StockSource::Trade { price: p, volume: v, .. }
                && p.amount@ == price && price.0 > 0 && proceeds.0 < 0 && v.amount@ == (-proceeds.0, proceeds.1))
            &&& quantity.0 < 0 ==> new_statement.stock_sells@.len() == old_statement.stock_sells@.len() + 1
                && new_statement.stock_sells@.last().quantity@.0 > 0
                && new_statement.stock_sells@.last().quantity@ == (-normal_form(quantity).0, normal_form(quantity).1)
                && (new_statement.stock_sells@.last().type_ matches crate::trades::StockSellType::Trade { price: p, volume: v, .. }
                && p.amount@ == price && price.0 > 0 && proceeds.0 > 0 && v.amount@ == proceeds)
            &&& quantity.0 != 0
        }))),
{
    let (code, price, fee, quantity, volume) = stock_record_fields(fields)->Some_0;
    let execution_date = choose|execution_date: Date|
        call_ensures(P::get_execution_date, (parser, symbol, time.date), execution_date)
        && #[trigger] stock_trade_recorded(old_statement, new_statement, symbol@, code, quantity, price, volume,
            fee, time, execution_date);
    assert(stock_trade_recorded(old_statement, new_statement, symbol@, code, quantity, price, volume, fee, time,
        execution_date));
    let text = field_value(fields, "Quantity"@)->Some_0;
    let parsed = decimal_from_str(text)->Some_0;
    lemma_normal_form_sign(parsed);
}

/// A stock trade read from a record is the record's trade: of its symbol, in its
/// currency, concluded on the record's date with no time of day, executed on the
/// date that the statement parser gives for the symbol and that date; one trade is
/// added and nothing else changes.
pub proof fn lemma_stock_trade_is_the_record<P: StatementParser>(
    parser: &P, old_statement: TradeStatement, new_statement: TradeStatement, fields: Seq<(String, String)>,
    symbol: &str, time: DateTime,
)
    requires
        stock_record_read(parser, old_statement, new_statement, fields, symbol, time, Ok::<(), Error>(())),
    ensures
        new_statement.forex_trades@ == old_statement.forex_trades@,
        field_value(fields, "Currency"@) matches Some(code) && (exists|execution_date: Date|
            #[trigger] call_ensures(P::get_execution_date, (parser, symbol, time.date), execution_date) && {
            &&& new_statement.stock_buys@.len() == old_statement.stock_buys@.len() + 1 ==> {
                let buy = new_statement.stock_buys@.last();
                &&& new_statement.stock_buys@.drop_last() == old_statement.stock_buys@
                &&& new_statement.stock_sells@ == old_statement.stock_sells@
                &&& buy.symbol@ == symbol@
                &&& buy.conclusion_time.date == time.date && buy.conclusion_time.time is None
                &&& buy.execution_date == execution_date
                &&& buy.type_ matches crate::trades::StockSource::Trade { price: p, volume: v, commission: c }
                    && p.currency@ == code && v.currency@ == code && c.currency@ == code
            }
            &&& new_statement.stock_sells@.len() == old_statement.stock_sells@.len() + 1 ==> {
                let sell = new_statement.stock_sells@.last();
                &&& new_statement.stock_sells@.drop_last() == old_statement.stock_sells@
                &&& new_statement.stock_buys@ == old_statement.stock_buys@
                &&& sell.symbol@ == symbol@
                &&& sell.conclusion_time.date == time.date && sell.conclusion_time.time is None
                &&& sell.execution_date == execution_date
                &&& sell.type_ matches crate::trades::StockSellType::Trade { price: p, volume: v, commission: c }
                    && p.currency@ == code && v.currency@ == code && c.currency@ == code
            }
        }),
{
    let (code, price, fee, quantity, volume) = stock_record_fields(fields)->Some_0;
    let execution_date = choose|execution_date: Date|
        call_ensures(P::get_execution_date, (parser, symbol, time.date), execution_date)
        && #[trigger] stock_trade_recorded(old_statement, new_statement, symbol@, code, quantity, price, volume,
            fee, time, execution_date);
    assert(stock_trade_recorded(old_statement, new_statement, symbol@, code, quantity, price, volume, fee, time,
        execution_date));
    assert(call_ensures(P::get_execution_date, (parser, symbol, time.date), execution_date));
}

/// Reads a stock trade of `symbol`.
pub fn parse_stock_record<P: StatementParser>(
    parser: &P, statement: &mut TradeStatement, record: &Record, symbol: &str, conclusion_time: DateTime,
) -> (r: Result<(), Error>)
    ensures
        stock_record_read(parser, *old(statement), *final(statement), record.fields@, symbol, conclusion_time, r),
{
    let code = record.get_value("Currency")?;
    let currency = Currency::new(code);
    let price = record.parse_cash("T. Price", currency, DecimalRestrictions::StrictlyPositive)?;
    let fee = record.parse_cash("Comm/Fee", currency, DecimalRestrictions::NegativeOrZero)?;
    let commission = fee.neg();
    let execution_date = parser.get_execution_date(symbol, conclusion_time.date);
    assert(call_ensures(P::get_execution_date, (parser, symbol, conclusion_time.date), execution_date));

    let quantity_text = record.get_value("Quantity")?;
    let parsed_quantity = match parse_decimal(quantity_text, DecimalRestrictions::NonZero) {
        Ok(quantity) => quantity,
        Err(_) => return Err(Error::UnexpectedTradeQuantity {
            symbol: symbol.to_owned(),
            quantity: quantity_text.to_owned(),
        }),
    };
    let quantity = parsed_quantity.normalize();
    proof {
        lemma_normal_form_sign(parsed_quantity@);
    }

    let volume = record.parse_cash("Proceeds", currency, if quantity.is_positive() {
        DecimalRestrictions::StrictlyNegative
    } else {
        DecimalRestrictions::StrictlyPositive
    })?;
    assert(stock_record_fields(record.fields@) == Some((code@, price.amount@, fee.amount@, quantity@, volume.amount@)));

    if quantity.is_positive() {
        statement.stock_buys.push(StockBuy::new_trade(
            symbol, quantity, price, volume.neg(), commission,
            DateOptTime::from_date_time(conclusion_time), execution_date, false));
        proof {
            assert(final(statement).stock_buys@.drop_last() =~= old(statement).stock_buys@);
        }
    } else {
        statement.stock_sells.push(StockSell::new_trade(
            symbol, quantity.neg(), price, volume, commission,
            conclusion_time.date, execution_date, false, false));
        proof {
            assert(final(statement).stock_sells@.drop_last() =~= old(statement).stock_sells@);
        }
    }
    assert(stock_record_read(parser, *old(statement), *final(statement), record.fields@, symbol, conclusion_time,
        Ok::<(), Error>(()))) by {
        let t = stock_record_fields(record.fields@).unwrap();
        assert(t == (code@, price.amount@, fee.amount@, quantity@, volume.amount@));
        assert(stock_trade_recorded(*old(statement), *final(statement), symbol@, t.0, t.3, t.1, t.4, t.2,
            conclusion_time, execution_date));
    }
    Ok(())
}

} // verus!

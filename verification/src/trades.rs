//! Trades of a broker statement: forex trades, stock buys and sells, the purchase
//! cost that a sold position carries over from its buys, and the calculation of
//! the profit and the tax of a stock sell.

use vstd::prelude::*;

use crate::cash::{cash_difference, cash_sum, rounded, Cash, Currency};
use crate::decimal::{
    decimal_checked_add, decimal_checked_div, decimal_checked_mul, decimal_checked_sub,
    less_value, lemma_pow10_positive, normal_form, option_view, same_value, Decimal,
};
use crate::error::Error;
use crate::time::{Date, DateOptTime};

verus! {

/// Converts amounts of money between currencies at the rates of a day.
pub trait CurrencyConverter {
    /// The amount `amount` in the currency `to`, at the rate of `date`.
    fn convert_to(&self, date: Date, amount: Cash, to: Currency) -> Result<Decimal, Error>;
}

/// A conversion rounded to cents. What the converter answers decides the result:
/// `rounded_conversion` states what comes of each answer.
pub fn convert_to_rounding<V: CurrencyConverter>(
    converter: &V, date: Date, amount: Cash, to: Currency,
) -> (r: Result<Decimal, Error>)
    ensures
        r matches Ok(d) ==> d@ == normal_form(d@) && d@.1 <= 2,
        exists|answer: Result<Decimal, Error>| #[trigger] converter_answers(converter, date, amount, to, answer)
            && match answer {
                Ok(c) => r matches Ok(d) && d@ == rounded(c@),
                Err(e) => r == Err::<Decimal, Error>(e),
            },
{
    let answer = converter.convert_to(date, amount, to);
    assert(converter_answers(converter, date, amount, to, answer));
    rounded_conversion(answer)
}

/// `answer` is an answer that `converter` can give to converting `amount` to `to`
/// at the rate of `date`.
pub open spec fn converter_answers<V: CurrencyConverter>(
    converter: &V, date: Date, amount: Cash, to: Currency, answer: Result<Decimal, Error>,
) -> bool {
    call_ensures(V::convert_to, (converter, date, amount, to), answer)
}

/// The answer of a currency converter rounded to cents; an error is passed on.
pub fn rounded_conversion(converted: Result<Decimal, Error>) -> (r: Result<Decimal, Error>)
    ensures
        match converted {
            Ok(c) => r matches Ok(d) && d@ == rounded(c@),
            Err(e) => r == Err::<Decimal, Error>(e),
        },
        r matches Ok(d) ==> d@ == normal_form(d@) && d@.1 <= 2,
{
    match converted {
        Ok(c) => {
            proof {
                lemma_rounded_is_normal(c@);
            }
            Ok(c.round_dp(2).normalize())
        },
        Err(e) => Err(e),
    }
}

/// A conversion rounded to cents, as an amount of money in the target currency.
/// What the converter answers decides the result: `rounded_cash_conversion` states
/// what comes of each answer.
pub fn convert_to_cash_rounding<V: CurrencyConverter>(
    converter: &V, date: Date, amount: Cash, to: Currency,
) -> (r: Result<Cash, Error>)
    ensures
        r matches Ok(c) ==> c.currency == to && c.amount@ == normal_form(c.amount@) && c.amount@.1 <= 2,
        exists|answer: Result<Decimal, Error>| #[trigger] converter_answers(converter, date, amount, to, answer)
            && cash_conversion_of(answer, to, r),
{
    let answer = converter.convert_to(date, amount, to);
    assert(converter_answers(converter, date, amount, to, answer));
    rounded_cash_conversion(answer, to)
}

/// `r` is the answer of a currency converter rounded to cents, as an amount of
/// money in `to`; an error is passed on.
pub open spec fn cash_conversion_of(answer: Result<Decimal, Error>, to: Currency, r: Result<Cash, Error>) -> bool {
    match answer {
        Ok(c) => (r matches Ok(cash) && cash.currency == to && cash.amount@ == rounded(c@)),
        Err(e) => r == Err::<Cash, Error>(e),
    }
}

/// The answer of a currency converter rounded to cents, as an amount of money in
/// `to`; an error is passed on.
pub fn rounded_cash_conversion(converted: Result<Decimal, Error>, to: Currency) -> (r: Result<Cash, Error>)
    ensures
        cash_conversion_of(converted, to, r),
        r matches Ok(c) ==> c.currency == to && c.amount@ == normal_form(c.amount@) && c.amount@.1 <= 2,
{
    match rounded_conversion(converted) {
        Ok(amount) => Ok(Cash::new(to, amount)),
        Err(e) => Err(e),
    }
}

proof fn lemma_rounded_is_normal(v: (int, nat))
    ensures
        rounded(v) == normal_form(rounded(v)),
        rounded(v).1 <= 2,
{
    crate::decimal::lemma_normal_form_idempotent(crate::decimal::round_half_away(v, 2));
}

/// The kinds of income that a tax applies to.
#[derive(Clone, Copy, Debug, PartialEq, Eq, Structural)]
pub enum IncomeType {
    Trading,
    Dividends,
    Interest,
}

/// The country whose taxes are paid.
pub trait Country {
    /// The currency in which the taxes are paid.
    fn currency(&self) -> Currency;

    /// The tax to pay on `income` of the given type received in `year`, where
    /// `paid_tax` has been paid abroad.
    fn tax_to_pay(&self, income_type: IncomeType, year: i32, income: Decimal, paid_tax: Option<Decimal>) -> Decimal;
}

/// Whether a tax exemption applies to the sell of a position: `exemptible` when it
/// may apply, `force` when it applies whatever the profit.
#[derive(Clone, Copy, Debug, PartialEq, Eq, Structural)]
pub struct TaxExemption {
    pub exemptible: bool,
    pub force: bool,
}

impl TaxExemption {
    pub fn is_applicable(&self) -> (r: (bool, bool))
        ensures
            r == (self.exemptible, self.force),
    {
        (self.exemptible, self.force)
    }
}

/// An exchange of one currency for another.
#[derive(Clone, Copy, Debug)]
pub struct ForexTrade {
    pub from: Cash,
    pub to: Cash,
    pub commission: Cash,
    pub conclusion_time: DateOptTime,
}

impl ForexTrade {
    /// A forex trade; of its conclusion time only the date is kept.
    pub fn new(time: DateOptTime, from: Cash, to: Cash, commission: Cash) -> (r: ForexTrade)
        ensures
            r.from == from,
            r.to == to,
            r.commission == commission,
            r.conclusion_time.date == time.date,
            r.conclusion_time.time is None,
    {
        ForexTrade { from, to, commission, conclusion_time: DateOptTime::from_date(time.date) }
    }
}

/// How a stock position was acquired.
#[derive(Clone, Copy, Debug)]
pub enum StockSource {
    /// An ordinary trade. `volume` may differ slightly from `price * quantity` due to
    /// rounding on the broker side.
    Trade { price: Cash, volume: Cash, commission: Cash },
    /// A non-trade operation of a corporate action that does not touch the cash
    /// balance: an emulated buy converting a position on a stock split, a spinoff or
    /// a stock dividend.
    CorporateAction,
}

/// Whether a purchase cost is paid for the stocks or as a commission.
#[derive(Clone, Copy, Debug, PartialEq, Eq, Structural)]
pub enum PurchaseCostType {
    Trade,
    Commission,
}

/// A part of a whole: `numerator / denominator`.
#[derive(Clone, Copy, Debug)]
pub struct Fraction {
    pub numerator: Decimal,
    pub denominator: Decimal,
}

/// A payment for a purchase.
#[derive(Clone, Copy, Debug)]
pub struct PurchaseTransaction {
    pub date: Date,
    pub type_: PurchaseCostType,
    pub cost: Cash,
}

impl PurchaseTransaction {
    pub fn new(date: Date, type_: PurchaseCostType, cost: Cash) -> (r: PurchaseTransaction)
        ensures
            r.date == date,
            r.type_ == type_,
            r.cost == cost,
    {
        PurchaseTransaction { date, type_, cost }
    }
}

/// The payments of one purchase, of which the given fraction is accounted.
#[derive(Clone, Debug)]
pub struct PurchaseCost {
    pub transactions: Vec<PurchaseTransaction>,
    pub fraction: Fraction,
}

/// A purchase cost as plain values.
pub type PurchaseCostView = (Seq<PurchaseTransaction>, Fraction);

impl View for PurchaseCost {
    type V = PurchaseCostView;

    open spec fn view(&self) -> PurchaseCostView {
        (self.transactions@, self.fraction)
    }
}

impl PurchaseCost {
    /// A copy of the purchase cost.
    pub fn duplicate(&self) -> (r: PurchaseCost)
        ensures
            r@ == self@,
    {
        let mut transactions: Vec<PurchaseTransaction> = Vec::new();
        for i in 0..self.transactions.len()
            invariant
                transactions@ == self.transactions@.take(i as int),
        {
            transactions.push(self.transactions[i]);
            assert(transactions@ =~= self.transactions@.take(i + 1));
        }
        assert(transactions@ =~= self.transactions@);
        PurchaseCost { transactions, fraction: self.fraction }
    }
}

/// The cost of a position: the purchases it comes from, each in the currency and
/// on the dates of its payments, so that it can be converted into any other
/// currency. A stock split emulates a sell and a buy; keeping the payments of the
/// purchases avoids revaluing the position at the rates of the split.
///
/// It may be zero due to corporate actions or other non-trade operations.
#[derive(Clone, Debug)]
pub struct PurchaseTotalCost {
    costs: Vec<PurchaseCost>,
}

impl View for PurchaseTotalCost {
    type V = Seq<PurchaseCostView>;

    closed spec fn view(&self) -> Seq<PurchaseCostView> {
        self.costs@.map_values(|c: PurchaseCost| c@)
    }
}

/// The cost of a single trade: its volume, paid on the execution date, and its
/// commission, paid on the conclusion date, where they are not zero; all of it
/// accounted.
pub open spec fn trade_cost(conclusion_date: Date, execution_date: Date, volume: Cash, commission: Cash) -> Seq<PurchaseCostView> {
    let trade = if volume.amount@.0 != 0 {
        seq![PurchaseTransaction { date: execution_date, type_: PurchaseCostType::Trade, cost: volume }]
    } else {
        Seq::empty()
    };
    let fee = if commission.amount@.0 != 0 {
        seq![PurchaseTransaction { date: conclusion_date, type_: PurchaseCostType::Commission, cost: commission }]
    } else {
        Seq::empty()
    };
    seq![(trade + fee, Fraction { numerator: Decimal::unit(), denominator: Decimal::unit() })]
}

/// Whether a transaction counts for a cost of the given type (all count for `None`).
pub open spec fn counts_for(transaction: PurchaseTransaction, type_: Option<PurchaseCostType>) -> bool {
    match type_ {
        Some(t) => t == transaction.type_,
        None => true,
    }
}

/// Some payment of the cost counts for the given type.
pub open spec fn has_counted_transaction(costs: Seq<PurchaseCostView>, type_: Option<PurchaseCostType>) -> bool {
    exists|k: int, j: int| 0 <= k < costs.len() && 0 <= j < costs[k].0.len() && counts_for(#[trigger] costs[k].0[j], type_)
}

/// One counted payment added to the cost `sum` of a purchase so far: the payment
/// scaled by the purchase's fraction, converted by `converter` at the rate of its
/// date and rounded to cents, gives `r` (a zero denominator, an overflow or the
/// converter's error gives that error).
pub open spec fn payment_step<V: CurrencyConverter>(
    converter: &V, transaction: PurchaseTransaction, fraction: Fraction, currency: Currency,
    sum: (int, nat), r: Result<(int, nat), Error>,
) -> bool {
    if fraction.denominator@.0 == 0 {
        r == Err::<(int, nat), Error>(Error::DivisionByZero)
    } else {
        match decimal_checked_div(transaction.cost.amount@, fraction.denominator@) {
            None => r == Err::<(int, nat), Error>(Error::Overflow),
            Some(part) => match decimal_checked_mul(part, fraction.numerator@) {
                None => r == Err::<(int, nat), Error>(Error::Overflow),
                Some(scaled) => exists|payment: Cash, answer: Result<Decimal, Error>|
                    payment.currency == transaction.cost.currency && payment.amount@ == scaled
                    && #[trigger] converter_answers(converter, transaction.date, payment, currency, answer)
                    && match answer {
                        Err(e) => r == Err::<(int, nat), Error>(e),
                        Ok(x) => match decimal_checked_add(sum, rounded(x@)) {
                            Some(total) => r == Ok::<(int, nat), Error>(total)
                                && (crate::decimal::add_fits(sum, rounded(x@)) ==> total == crate::decimal::exact_add(sum, rounded(x@))),
                            None => r == Err::<(int, nat), Error>(Error::Overflow),
                        },
                    },
            },
        }
    }
}

/// Payment `j` of a purchase taken into its sum: `before` becomes `after`, as
/// `payment_step` says where the payment counts for `type_`; else nothing changes.
pub open spec fn payment_done<V: CurrencyConverter>(
    converter: &V, cost: PurchaseCostView, type_: Option<PurchaseCostType>, currency: Currency,
    j: int, before: (int, nat), after: (int, nat),
) -> bool {
    if counts_for(cost.0[j], type_) {
        payment_step(converter, cost.0[j], cost.1, currency, before, Ok::<(int, nat), Error>(after))
    } else {
        after == before
    }
}

/// `sums` are the sums of a purchase's first payments, from zero, each taken into
/// it as `payment_done` says.
pub open spec fn purchase_trace<V: CurrencyConverter>(
    converter: &V, cost: PurchaseCostView, type_: Option<PurchaseCostType>, currency: Currency, sums: Seq<(int, nat)>,
) -> bool {
    &&& 1 <= sums.len() <= cost.0.len() + 1
    &&& sums[0] == (0int, 0nat)
    &&& forall|j: int| 0 <= j < sums.len() - 1 ==> #[trigger] payment_done(converter, cost, type_, currency, j, sums[j], sums[j + 1])
}

/// `r` can be the cost of a purchase: the sum of all its payments that count for
/// `type_`, each as `payment_step` says, or the error of the first payment that
/// fails.
pub open spec fn purchase_cost_result<V: CurrencyConverter>(
    converter: &V, cost: PurchaseCostView, type_: Option<PurchaseCostType>, currency: Currency,
    r: Result<(int, nat), Error>,
) -> bool {
    exists|sums: Seq<(int, nat)>| #[trigger] purchase_trace(converter, cost, type_, currency, sums) && {
        ||| sums.len() == cost.0.len() + 1 && r == Ok::<(int, nat), Error>(sums.last())
        ||| sums.len() <= cost.0.len() && counts_for(cost.0[sums.len() - 1], type_) && r is Err
            && payment_step(converter, cost.0[sums.len() - 1], cost.1, currency, sums.last(), r)
    }
}

/// Purchase `k` added to the total `before` gives `after` (exactly their sum where
/// `rust_decimal` adds them exactly).
pub open spec fn purchase_added<V: CurrencyConverter>(
    converter: &V, costs: Seq<PurchaseCostView>, type_: Option<PurchaseCostType>, currency: Currency,
    k: int, before: (int, nat), after: (int, nat),
) -> bool {
    exists|part: (int, nat)| #[trigger] purchase_cost_result(converter, costs[k], type_, currency, Ok::<(int, nat), Error>(part))
        && decimal_checked_add(before, part) == Some(after)
        && (crate::decimal::add_fits(before, part) ==> after == crate::decimal::exact_add(before, part))
}

/// `totals` are the totals of the first purchases, from zero.
pub open spec fn total_trace<V: CurrencyConverter>(
    converter: &V, costs: Seq<PurchaseCostView>, type_: Option<PurchaseCostType>, currency: Currency, totals: Seq<(int, nat)>,
) -> bool {
    &&& 1 <= totals.len() <= costs.len() + 1
    &&& totals[0] == (0int, 0nat)
    &&& forall|k: int| 0 <= k < totals.len() - 1 ==> #[trigger] purchase_added(converter, costs, type_, currency, k, totals[k], totals[k + 1])
}

/// `r` can be the cost `costs` in `currency`: the sum of the purchases' costs, each
/// as `purchase_cost_result` says, with trailing zeros stripped; or the error of
/// the first purchase that fails, or `Error::Overflow` where adding its cost does.
pub open spec fn cost_in<V: CurrencyConverter>(
    converter: &V, costs: Seq<PurchaseCostView>, type_: Option<PurchaseCostType>, currency: Currency,
    r: Result<Cash, Error>,
) -> bool {
    exists|totals: Seq<(int, nat)>| #[trigger] total_trace(converter, costs, type_, currency, totals) && {
        ||| totals.len() == costs.len() + 1 && (r matches Ok(c) && c.currency == currency && c.amount@ == normal_form(totals.last()))
        ||| totals.len() <= costs.len() && (r matches Err(e) && (
            purchase_cost_result(converter, costs[totals.len() - 1], type_, currency, Err::<(int, nat), Error>(e))
            || (e == Error::Overflow && exists|part: (int, nat)| #[trigger] purchase_cost_result(converter,
                costs[totals.len() - 1], type_, currency, Ok::<(int, nat), Error>(part))
                && decimal_checked_add(totals.last(), part) is None)))
    }
}

/// The currency converter gives one answer for the same date, amount and currencies.
pub open spec fn answers_by_arguments<V: CurrencyConverter>(converter: &V) -> bool {
    forall|date: Date, amount: Cash, to: Currency, a: Result<Decimal, Error>, b: Result<Decimal, Error>|
        #![trigger converter_answers(converter, date, amount, to, a), converter_answers(converter, date, amount, to, b)]
        converter_answers(converter, date, amount, to, a) && converter_answers(converter, date, amount, to, b) ==> a == b
}

/// Two sums of the first payments of a purchase agree where the converter gives one
/// answer for the same arguments.
proof fn lemma_purchase_sums_agree<V: CurrencyConverter>(
    converter: &V, cost: PurchaseCostView, type_: Option<PurchaseCostType>, currency: Currency,
    sums: Seq<(int, nat)>, other: Seq<(int, nat)>, j: int,
)
    requires
        answers_by_arguments(converter),
        purchase_trace(converter, cost, type_, currency, sums),
        purchase_trace(converter, cost, type_, currency, other),
        0 <= j < sums.len(),
        j < other.len(),
    ensures
        sums[j] == other[j],
    decreases j,
{
    if j > 0 {
        lemma_purchase_sums_agree(converter, cost, type_, currency, sums, other, j - 1);
        let k = j - 1;
        assert(payment_done(converter, cost, type_, currency, k, sums[k], sums[k + 1]));
        assert(payment_done(converter, cost, type_, currency, k, other[k], other[k + 1]));
        if counts_for(cost.0[k], type_) {
            let transaction = cost.0[k];
            let part = decimal_checked_div(transaction.cost.amount@, cost.1.denominator@)->Some_0;
            let scaled = decimal_checked_mul(part, cost.1.numerator@)->Some_0;
            let (p1, a1) = choose|payment: Cash, answer: Result<Decimal, Error>|
                payment.currency == transaction.cost.currency && payment.amount@ == scaled
                && #[trigger] converter_answers(converter, transaction.date, payment, currency, answer)
                && match answer {
                    Err(e) => Ok::<(int, nat), Error>(sums[k + 1]) == Err::<(int, nat), Error>(e),
                    Ok(x) => match decimal_checked_add(sums[k], rounded(x@)) {
                        Some(total) => Ok::<(int, nat), Error>(sums[k + 1]) == Ok::<(int, nat), Error>(total)
                            && (crate::decimal::add_fits(sums[k], rounded(x@)) ==> total == crate::decimal::exact_add(sums[k], rounded(x@))),
                        None => Ok::<(int, nat), Error>(sums[k + 1]) == Err::<(int, nat), Error>(Error::Overflow),
                    },
                };
            let (p2, a2) = choose|payment: Cash, answer: Result<Decimal, Error>|
                payment.currency == transaction.cost.currency && payment.amount@ == scaled
                && #[trigger] converter_answers(converter, transaction.date, payment, currency, answer)
                && match answer {
                    Err(e) => Ok::<(int, nat), Error>(other[k + 1]) == Err::<(int, nat), Error>(e),
                    Ok(x) => match decimal_checked_add(other[k], rounded(x@)) {
                        Some(total) => Ok::<(int, nat), Error>(other[k + 1]) == Ok::<(int, nat), Error>(total)
                            && (crate::decimal::add_fits(other[k], rounded(x@)) ==> total == crate::decimal::exact_add(other[k], rounded(x@))),
                        None => Ok::<(int, nat), Error>(other[k + 1]) == Err::<(int, nat), Error>(Error::Overflow),
                    },
                };
            crate::decimal::lemma_view_injective(p1.amount, p2.amount);
            assert(p1 == p2);
            assert(a1 == a2);
        }
    }
}

/// A purchase has one cost where the converter gives one answer for the same
/// arguments.
pub proof fn lemma_purchase_cost_unique<V: CurrencyConverter>(
    converter: &V, cost: PurchaseCostView, type_: Option<PurchaseCostType>, currency: Currency,
    p: (int, nat), q: (int, nat),
)
    requires
        answers_by_arguments(converter),
        purchase_cost_result(converter, cost, type_, currency, Ok::<(int, nat), Error>(p)),
        purchase_cost_result(converter, cost, type_, currency, Ok::<(int, nat), Error>(q)),
    ensures
        p == q,
{
    let s1 = choose|sums: Seq<(int, nat)>| #[trigger] purchase_trace(converter, cost, type_, currency, sums) && {
        ||| sums.len() == cost.0.len() + 1 && Ok::<(int, nat), Error>(p) == Ok::<(int, nat), Error>(sums.last())
        ||| sums.len() <= cost.0.len() && counts_for(cost.0[sums.len() - 1], type_) && Ok::<(int, nat), Error>(p) is Err
            && payment_step(converter, cost.0[sums.len() - 1], cost.1, currency, sums.last(), Ok::<(int, nat), Error>(p))
    };
    let s2 = choose|sums: Seq<(int, nat)>| #[trigger] purchase_trace(converter, cost, type_, currency, sums) && {
        ||| sums.len() == cost.0.len() + 1 && Ok::<(int, nat), Error>(q) == Ok::<(int, nat), Error>(sums.last())
        ||| sums.len() <= cost.0.len() && counts_for(cost.0[sums.len() - 1], type_) && Ok::<(int, nat), Error>(q) is Err
            && payment_step(converter, cost.0[sums.len() - 1], cost.1, currency, sums.last(), Ok::<(int, nat), Error>(q))
    };
    lemma_purchase_sums_agree(converter, cost, type_, currency, s1, s2, cost.0.len() as int);
}

/// The totals of two sequences of purchases agree on a common first part, where the
/// converter gives one answer for the same arguments.
proof fn lemma_totals_agree<V: CurrencyConverter>(
    converter: &V, costs: Seq<PurchaseCostView>, longer: Seq<PurchaseCostView>, type_: Option<PurchaseCostType>,
    currency: Currency, totals: Seq<(int, nat)>, longer_totals: Seq<(int, nat)>, k: int,
)
    requires
        answers_by_arguments(converter),
        total_trace(converter, costs, type_, currency, totals),
        total_trace(converter, longer, type_, currency, longer_totals),
        0 <= k < totals.len(),
        k < longer_totals.len(),
        forall|i: int| 0 <= i < costs.len() ==> #[trigger] longer[i] == costs[i],
        costs.len() <= longer.len(),
    ensures
        longer_totals[k] == totals[k],
    decreases k,
{
    if k > 0 {
        lemma_totals_agree(converter, costs, longer, type_, currency, totals, longer_totals, k - 1);
        let i = k - 1;
        assert(purchase_added(converter, costs, type_, currency, i, totals[i], totals[i + 1]));
        assert(purchase_added(converter, longer, type_, currency, i, longer_totals[i], longer_totals[i + 1]));
        let p = choose|part: (int, nat)| #[trigger] purchase_cost_result(converter, costs[i], type_, currency, Ok::<(int, nat), Error>(part))
            && decimal_checked_add(totals[i], part) == Some(totals[i + 1])
            && (crate::decimal::add_fits(totals[i], part) ==> totals[i + 1] == crate::decimal::exact_add(totals[i], part));
        let q = choose|part: (int, nat)| #[trigger] purchase_cost_result(converter, longer[i], type_, currency, Ok::<(int, nat), Error>(part))
            && decimal_checked_add(longer_totals[i], part) == Some(longer_totals[i + 1])
            && (crate::decimal::add_fits(longer_totals[i], part) ==> longer_totals[i + 1] == crate::decimal::exact_add(longer_totals[i], part));
        assert(longer[i] == costs[i]);
        lemma_purchase_cost_unique(converter, costs[i], type_, currency, p, q);
    }
}

/// Every purchase cost added on top of `totals[start..]` is added exactly, and all
/// the amounts involved have a scale of at most `n`.
pub open spec fn added_exactly<V: CurrencyConverter>(
    converter: &V, costs: Seq<PurchaseCostView>, type_: Option<PurchaseCostType>, currency: Currency,
    totals: Seq<(int, nat)>, start: int, n: nat,
) -> bool {
    &&& forall|k: int| start <= k < totals.len() ==> (#[trigger] totals[k]).1 <= n
    &&& forall|k: int, part: (int, nat)| start <= k < totals.len() - 1
        && #[trigger] purchase_cost_result(converter, costs[k], type_, currency, Ok::<(int, nat), Error>(part))
        ==> part.1 <= n && crate::decimal::add_fits(totals[k], part)
}

/// The merged sum after the first `i` purchases of `b` is the total of `a` plus the
/// sum of `b` after them.
proof fn lemma_merged_totals<V: CurrencyConverter>(
    converter: &V, a: Seq<PurchaseCostView>, b: Seq<PurchaseCostView>, type_: Option<PurchaseCostType>,
    currency: Currency, ta: Seq<(int, nat)>, tb: Seq<(int, nat)>, tm: Seq<(int, nat)>, n: nat, i: int,
)
    requires
        answers_by_arguments(converter),
        total_trace(converter, a, type_, currency, ta),
        ta.len() == a.len() + 1,
        total_trace(converter, b, type_, currency, tb),
        tb.len() == b.len() + 1,
        total_trace(converter, a + b, type_, currency, tm),
        tm.len() == a.len() + b.len() + 1,
        added_exactly(converter, b, type_, currency, tb, 0, n),
        added_exactly(converter, a + b, type_, currency, tm, a.len() as int, n),
        0 <= i <= b.len(),
    ensures
        crate::decimal::value_at(tm[a.len() + i], n)
            == crate::decimal::value_at(ta.last(), n) + crate::decimal::value_at(tb[i], n),
    decreases i,
{
    let m = a + b;
    if i == 0 {
        assert forall|j: int| 0 <= j < a.len() implies #[trigger] m[j] == a[j] by {}
        lemma_totals_agree(converter, a, m, type_, currency, ta, tm, a.len() as int);
        assert(tb[0] == (0int, 0nat));
        let p = crate::decimal::pow10(n);
        assert(0int * p == 0) by (nonlinear_arith);
    } else {
        lemma_merged_totals(converter, a, b, type_, currency, ta, tb, tm, n, i - 1);
        let k = a.len() + i - 1;
        let j = i - 1;
        assert(purchase_added(converter, m, type_, currency, k, tm[k], tm[k + 1]));
        assert(purchase_added(converter, b, type_, currency, j, tb[j], tb[j + 1]));
        let p = choose|part: (int, nat)| #[trigger] purchase_cost_result(converter, m[k], type_, currency, Ok::<(int, nat), Error>(part))
            && decimal_checked_add(tm[k], part) == Some(tm[k + 1])
            && (crate::decimal::add_fits(tm[k], part) ==> tm[k + 1] == crate::decimal::exact_add(tm[k], part));
        let q = choose|part: (int, nat)| #[trigger] purchase_cost_result(converter, b[j], type_, currency, Ok::<(int, nat), Error>(part))
            && decimal_checked_add(tb[j], part) == Some(tb[j + 1])
            && (crate::decimal::add_fits(tb[j], part) ==> tb[j + 1] == crate::decimal::exact_add(tb[j], part));
        assert(m[k] == b[j]);
        lemma_purchase_cost_unique(converter, b[j], type_, currency, p, q);
        assert(tm[k].1 <= n && tm[k + 1].1 <= n);
        assert(tb[j].1 <= n);
        crate::decimal::lemma_exact_add_value(tm[k], p, n);
        crate::decimal::lemma_exact_add_value(tb[j], p, n);
    }
}

/// Merging two costs adds them up: with a converter that gives one answer for the
/// same arguments, the sum that `cost_in` takes of the merged purchases (`tm`,
/// before trailing zeros are stripped), written at a scale `n` that holds all the
/// scales, is the sum of the two costs' sums (`ta` and `tb`), where `rust_decimal`
/// adds each of the second cost's purchases exactly.
pub proof fn lemma_merged_costs_add_up<V: CurrencyConverter>(
    converter: &V, a: Seq<PurchaseCostView>, b: Seq<PurchaseCostView>, type_: Option<PurchaseCostType>,
    currency: Currency, ta: Seq<(int, nat)>, tb: Seq<(int, nat)>, tm: Seq<(int, nat)>, n: nat,
)
    requires
        answers_by_arguments(converter),
        total_trace(converter, a, type_, currency, ta),
        ta.len() == a.len() + 1,
        total_trace(converter, b, type_, currency, tb),
        tb.len() == b.len() + 1,
        total_trace(converter, a + b, type_, currency, tm),
        tm.len() == a.len() + b.len() + 1,
        added_exactly(converter, b, type_, currency, tb, 0, n),
        added_exactly(converter, a + b, type_, currency, tm, a.len() as int, n),
    ensures
        crate::decimal::value_at(tm.last(), n)
            == crate::decimal::value_at(ta.last(), n) + crate::decimal::value_at(tb.last(), n),
{
    lemma_merged_totals(converter, a, b, type_, currency, ta, tb, tm, n, b.len() as int);
}

/// The amount of a payment that a purchase accounts for: its cost divided by the
/// denominator of the purchase's fraction, times its numerator.
pub open spec fn accounted_amount(transaction: PurchaseTransaction, fraction: Fraction) -> Option<(int, nat)> {
    if fraction.denominator@.0 == 0 {
        None
    } else {
        match decimal_checked_div(transaction.cost.amount@, fraction.denominator@) {
            Some(part) => decimal_checked_mul(part, fraction.numerator@),
            None => None,
        }
    }
}

/// Each payment of a purchase that counts for `type_` is added exactly onto the
/// sums `sums` of the payments before it, which have a scale of at most `n`.
pub open spec fn paid_exactly<V: CurrencyConverter>(
    converter: &V, cost: PurchaseCostView, type_: Option<PurchaseCostType>, currency: Currency,
    sums: Seq<(int, nat)>, n: nat,
) -> bool {
    &&& forall|j: int| 0 <= j < sums.len() ==> (#[trigger] sums[j]).1 <= n
    &&& forall|j: int, payment: Cash, x: Decimal| 0 <= j < sums.len() - 1 && counts_for(cost.0[j], type_)
        && Some(payment.amount@) == accounted_amount(cost.0[j], cost.1) && payment.currency == cost.0[j].cost.currency
        && #[trigger] converter_answers(converter, cost.0[j].date, payment, currency, Ok::<Decimal, Error>(x))
        ==> crate::decimal::add_fits(#[trigger] sums[j], rounded(x@))
}

/// Every purchase of `costs` sums up its payments exactly, for any type, in scales of
/// at most `n`.
pub open spec fn costs_paid_exactly<V: CurrencyConverter>(
    converter: &V, costs: Seq<PurchaseCostView>, currency: Currency, n: nat,
) -> bool {
    forall|k: int, type_: Option<PurchaseCostType>, sums: Seq<(int, nat)>| 0 <= k < costs.len()
        && #[trigger] purchase_trace(converter, costs[k], type_, currency, sums)
        ==> paid_exactly(converter, costs[k], type_, currency, sums, n)
}

/// A payment taken into the sums of all payments, of the trade payments and of the
/// commission payments keeps the first the sum of the other two.
proof fn lemma_payment_parts<V: CurrencyConverter>(
    converter: &V, cost: PurchaseCostView, currency: Currency, all: Seq<(int, nat)>, trade: Seq<(int, nat)>,
    fees: Seq<(int, nat)>, n: nat, j: int,
)
    requires
        answers_by_arguments(converter),
        2 <= n,
        purchase_trace(converter, cost, None, currency, all),
        purchase_trace(converter, cost, Some(PurchaseCostType::Trade), currency, trade),
        purchase_trace(converter, cost, Some(PurchaseCostType::Commission), currency, fees),
        paid_exactly(converter, cost, None, currency, all, n),
        paid_exactly(converter, cost, Some(PurchaseCostType::Trade), currency, trade, n),
        paid_exactly(converter, cost, Some(PurchaseCostType::Commission), currency, fees, n),
        0 <= j < all.len(),
        j < trade.len(),
        j < fees.len(),
    ensures
        crate::decimal::value_at(all[j], n)
            == crate::decimal::value_at(trade[j], n) + crate::decimal::value_at(fees[j], n),
    decreases j,
{
    if j == 0 {
        let p = crate::decimal::pow10(n);
        assert(0int * p == 0) by (nonlinear_arith);
    } else {
        let k = j - 1;
        lemma_payment_parts(converter, cost, currency, all, trade, fees, n, k);
        let tx = cost.0[k];
        assert(payment_done(converter, cost, None, currency, k, all[k], all[k + 1]));
        assert(payment_done(converter, cost, Some(PurchaseCostType::Trade), currency, k, trade[k], trade[k + 1]));
        assert(payment_done(converter, cost, Some(PurchaseCostType::Commission), currency, k, fees[k], fees[k + 1]));
        let part = decimal_checked_div(tx.cost.amount@, cost.1.denominator@)->Some_0;
        let scaled = decimal_checked_mul(part, cost.1.numerator@)->Some_0;
        let (p1, a1) = choose|payment: Cash, answer: Result<Decimal, Error>|
            payment.currency == tx.cost.currency && payment.amount@ == scaled
            && #[trigger] converter_answers(converter, tx.date, payment, currency, answer)
            && match answer {
                Err(e) => Ok::<(int, nat), Error>(all[k + 1]) == Err::<(int, nat), Error>(e),
                Ok(x) => match decimal_checked_add(all[k], rounded(x@)) {
                    Some(total) => Ok::<(int, nat), Error>(all[k + 1]) == Ok::<(int, nat), Error>(total)
                        && (crate::decimal::add_fits(all[k], rounded(x@)) ==> total == crate::decimal::exact_add(all[k], rounded(x@))),
                    None => Ok::<(int, nat), Error>(all[k + 1]) == Err::<(int, nat), Error>(Error::Overflow),
                },
            };
        let x = a1->Ok_0;
        assert(converter_answers(converter, tx.date, p1, currency, Ok::<Decimal, Error>(x)));
        assert(crate::decimal::add_fits(all[k], rounded(x@)));
        assert(all[k].1 <= n && all[k + 1].1 <= n && trade[k].1 <= n && fees[k].1 <= n);
        crate::decimal::lemma_normal_form_idempotent(crate::decimal::round_half_away(x@, 2));
        crate::decimal::lemma_exact_add_value(all[k], rounded(x@), n);
        if tx.type_ == PurchaseCostType::Trade {
            let (p2, a2) = choose|payment: Cash, answer: Result<Decimal, Error>|
                payment.currency == tx.cost.currency && payment.amount@ == scaled
                && #[trigger] converter_answers(converter, tx.date, payment, currency, answer)
                && match answer {
                    Err(e) => Ok::<(int, nat), Error>(trade[k + 1]) == Err::<(int, nat), Error>(e),
                    Ok(y) => match decimal_checked_add(trade[k], rounded(y@)) {
                        Some(total) => Ok::<(int, nat), Error>(trade[k + 1]) == Ok::<(int, nat), Error>(total)
                            && (crate::decimal::add_fits(trade[k], rounded(y@)) ==> total == crate::decimal::exact_add(trade[k], rounded(y@))),
                        None => Ok::<(int, nat), Error>(trade[k + 1]) == Err::<(int, nat), Error>(Error::Overflow),
                    },
                };
            crate::decimal::lemma_view_injective(p1.amount, p2.amount);
            assert(p1 == p2);
            assert(a1 == a2);
            assert(crate::decimal::add_fits(trade[k], rounded(x@)));
            crate::decimal::lemma_exact_add_value(trade[k], rounded(x@), n);
        } else {
            let (p2, a2) = choose|payment: Cash, answer: Result<Decimal, Error>|
                payment.currency == tx.cost.currency && payment.amount@ == scaled
                && #[trigger] converter_answers(converter, tx.date, payment, currency, answer)
                && match answer {
                    Err(e) => Ok::<(int, nat), Error>(fees[k + 1]) == Err::<(int, nat), Error>(e),
                    Ok(y) => match decimal_checked_add(fees[k], rounded(y@)) {
                        Some(total) => Ok::<(int, nat), Error>(fees[k + 1]) == Ok::<(int, nat), Error>(total)
                            && (crate::decimal::add_fits(fees[k], rounded(y@)) ==> total == crate::decimal::exact_add(fees[k], rounded(y@))),
                        None => Ok::<(int, nat), Error>(fees[k + 1]) == Err::<(int, nat), Error>(Error::Overflow),
                    },
                };
            crate::decimal::lemma_view_injective(p1.amount, p2.amount);
            assert(p1 == p2);
            assert(a1 == a2);
            assert(crate::decimal::add_fits(fees[k], rounded(x@)));
            crate::decimal::lemma_exact_add_value(fees[k], rounded(x@), n);
        }
    }
}

/// The cost of a purchase is the cost of its trade payments plus that of its
/// commission payments, where its payments are summed up exactly.
proof fn lemma_purchase_parts<V: CurrencyConverter>(
    converter: &V, costs: Seq<PurchaseCostView>, k: int, currency: Currency, all: (int, nat), trade: (int, nat),
    fees: (int, nat), n: nat,
)
    requires
        answers_by_arguments(converter),
        2 <= n,
        0 <= k < costs.len(),
        costs_paid_exactly(converter, costs, currency, n),
        purchase_cost_result(converter, costs[k], None, currency, Ok::<(int, nat), Error>(all)),
        purchase_cost_result(converter, costs[k], Some(PurchaseCostType::Trade), currency, Ok::<(int, nat), Error>(trade)),
        purchase_cost_result(converter, costs[k], Some(PurchaseCostType::Commission), currency, Ok::<(int, nat), Error>(fees)),
    ensures
        all.1 <= n && trade.1 <= n && fees.1 <= n,
        crate::decimal::value_at(all, n) == crate::decimal::value_at(trade, n) + crate::decimal::value_at(fees, n),
{
    let cost = costs[k];
    let s1 = choose|sums: Seq<(int, nat)>| #[trigger] purchase_trace(converter, cost, None, currency, sums) && {
        ||| sums.len() == cost.0.len() + 1 && Ok::<(int, nat), Error>(all) == Ok::<(int, nat), Error>(sums.last())
        ||| sums.len() <= cost.0.len() && counts_for(cost.0[sums.len() - 1], None) && Ok::<(int, nat), Error>(all) is Err
            && payment_step(converter, cost.0[sums.len() - 1], cost.1, currency, sums.last(), Ok::<(int, nat), Error>(all))
    };
    let s2 = choose|sums: Seq<(int, nat)>| #[trigger] purchase_trace(converter, cost, Some(PurchaseCostType::Trade), currency, sums) && {
        ||| sums.len() == cost.0.len() + 1 && Ok::<(int, nat), Error>(trade) == Ok::<(int, nat), Error>(sums.last())
        ||| sums.len() <= cost.0.len() && counts_for(cost.0[sums.len() - 1], Some(PurchaseCostType::Trade)) && Ok::<(int, nat), Error>(trade) is Err
            && payment_step(converter, cost.0[sums.len() - 1], cost.1, currency, sums.last(), Ok::<(int, nat), Error>(trade))
    };
    let s3 = choose|sums: Seq<(int, nat)>| #[trigger] purchase_trace(converter, cost, Some(PurchaseCostType::Commission), currency, sums) && {
        ||| sums.len() == cost.0.len() + 1 && Ok::<(int, nat), Error>(fees) == Ok::<(int, nat), Error>(sums.last())
        ||| sums.len() <= cost.0.len() && counts_for(cost.0[sums.len() - 1], Some(PurchaseCostType::Commission)) && Ok::<(int, nat), Error>(fees) is Err
            && payment_step(converter, cost.0[sums.len() - 1], cost.1, currency, sums.last(), Ok::<(int, nat), Error>(fees))
    };
    assert(paid_exactly(converter, cost, None, currency, s1, n));
    assert(paid_exactly(converter, cost, Some(PurchaseCostType::Trade), currency, s2, n));
    assert(paid_exactly(converter, cost, Some(PurchaseCostType::Commission), currency, s3, n));
    lemma_payment_parts(converter, cost, currency, s1, s2, s3, n, cost.0.len() as int);
    assert(s1[cost.0.len() as int].1 <= n);
    assert(s2[cost.0.len() as int].1 <= n);
    assert(s3[cost.0.len() as int].1 <= n);
}

/// The totals of all payments, of the trade payments and of the commission payments
/// after the first `k` purchases: the first is the sum of the other two.
proof fn lemma_total_parts<V: CurrencyConverter>(
    converter: &V, costs: Seq<PurchaseCostView>, currency: Currency, all: Seq<(int, nat)>, trade: Seq<(int, nat)>,
    fees: Seq<(int, nat)>, n: nat, k: int,
)
    requires
        answers_by_arguments(converter),
        2 <= n,
        costs_paid_exactly(converter, costs, currency, n),
        total_trace(converter, costs, None, currency, all),
        total_trace(converter, costs, Some(PurchaseCostType::Trade), currency, trade),
        total_trace(converter, costs, Some(PurchaseCostType::Commission), currency, fees),
        added_exactly(converter, costs, None, currency, all, 0, n),
        added_exactly(converter, costs, Some(PurchaseCostType::Trade), currency, trade, 0, n),
        added_exactly(converter, costs, Some(PurchaseCostType::Commission), currency, fees, 0, n),
        0 <= k < all.len(),
        k < trade.len(),
        k < fees.len(),
    ensures
        crate::decimal::value_at(all[k], n)
            == crate::decimal::value_at(trade[k], n) + crate::decimal::value_at(fees[k], n),
    decreases k,
{
    if k == 0 {
        let p = crate::decimal::pow10(n);
        assert(0int * p == 0) by (nonlinear_arith);
    } else {
        let i = k - 1;
        lemma_total_parts(converter, costs, currency, all, trade, fees, n, i);
        assert(purchase_added(converter, costs, None, currency, i, all[i], all[i + 1]));
        assert(purchase_added(converter, costs, Some(PurchaseCostType::Trade), currency, i, trade[i], trade[i + 1]));
        assert(purchase_added(converter, costs, Some(PurchaseCostType::Commission), currency, i, fees[i], fees[i + 1]));
        let pa = choose|part: (int, nat)| #[trigger] purchase_cost_result(converter, costs[i], None, currency, Ok::<(int, nat), Error>(part))
            && decimal_checked_add(all[i], part) == Some(all[i + 1])
            && (crate::decimal::add_fits(all[i], part) ==> all[i + 1] == crate::decimal::exact_add(all[i], part));
        let pt = choose|part: (int, nat)| #[trigger] purchase_cost_result(converter, costs[i], Some(PurchaseCostType::Trade), currency, Ok::<(int, nat), Error>(part))
            && decimal_checked_add(trade[i], part) == Some(trade[i + 1])
            && (crate::decimal::add_fits(trade[i], part) ==> trade[i + 1] == crate::decimal::exact_add(trade[i], part));
        let pf = choose|part: (int, nat)| #[trigger] purchase_cost_result(converter, costs[i], Some(PurchaseCostType::Commission), currency, Ok::<(int, nat), Error>(part))
            && decimal_checked_add(fees[i], part) == Some(fees[i + 1])
            && (crate::decimal::add_fits(fees[i], part) ==> fees[i + 1] == crate::decimal::exact_add(fees[i], part));
        lemma_purchase_parts(converter, costs, i, currency, pa, pt, pf, n);
        assert(all[i].1 <= n && trade[i].1 <= n && fees[i].1 <= n);
        crate::decimal::lemma_exact_add_value(all[i], pa, n);
        crate::decimal::lemma_exact_add_value(trade[i], pt, n);
        crate::decimal::lemma_exact_add_value(fees[i], pf, n);
    }
}

/// The total cost is the trade cost plus the commissions: with a converter that
/// gives one answer for the same arguments, the sum that `cost_in` takes of all the
/// payments (`all`, before trailing zeros are stripped), written at a scale `n` of
/// at least 2 that holds all the scales, is the sum of its sums of the trade
/// payments (`trade`) and of the commission payments (`fees`), where `rust_decimal`
/// adds every payment and every purchase exactly.
pub proof fn lemma_total_cost_is_trade_and_commissions<V: CurrencyConverter>(
    converter: &V, costs: Seq<PurchaseCostView>, currency: Currency, all: Seq<(int, nat)>, trade: Seq<(int, nat)>,
    fees: Seq<(int, nat)>, n: nat,
)
    requires
        answers_by_arguments(converter),
        2 <= n,
        costs_paid_exactly(converter, costs, currency, n),
        total_trace(converter, costs, None, currency, all),
        all.len() == costs.len() + 1,
        total_trace(converter, costs, Some(PurchaseCostType::Trade), currency, trade),
        trade.len() == costs.len() + 1,
        total_trace(converter, costs, Some(PurchaseCostType::Commission), currency, fees),
        fees.len() == costs.len() + 1,
        added_exactly(converter, costs, None, currency, all, 0, n),
        added_exactly(converter, costs, Some(PurchaseCostType::Trade), currency, trade, 0, n),
        added_exactly(converter, costs, Some(PurchaseCostType::Commission), currency, fees, 0, n),
    ensures
        crate::decimal::value_at(all.last(), n)
            == crate::decimal::value_at(trade.last(), n) + crate::decimal::value_at(fees.last(), n),
{
    lemma_total_parts(converter, costs, currency, all, trade, fees, n, costs.len() as int);
}

impl PurchaseTotalCost {
    /// A zero cost.
    pub fn new() -> (r: PurchaseTotalCost)
        ensures
            r@ == Seq::<PurchaseCostView>::empty(),
    {
        let r = PurchaseTotalCost { costs: Vec::new() };
        assert(r@ =~= Seq::<PurchaseCostView>::empty());
        r
    }

    /// The cost of a single trade.
    pub fn new_from_trade(conclusion_date: Date, execution_date: Date, volume: Cash, commission: Cash) -> (r: PurchaseTotalCost)
        ensures
            r@ == trade_cost(conclusion_date, execution_date, volume, commission),
    {
        let mut transactions: Vec<PurchaseTransaction> = Vec::new();
        if !volume.is_zero() {
            transactions.push(PurchaseTransaction::new(execution_date, PurchaseCostType::Trade, volume));
        }
        if !commission.is_zero() {
            transactions.push(PurchaseTransaction::new(conclusion_date, PurchaseCostType::Commission, commission));
        }
        let fraction = Fraction { numerator: Decimal::one(), denominator: Decimal::one() };
        let mut costs: Vec<PurchaseCost> = Vec::new();
        costs.push(PurchaseCost { transactions, fraction });
        let r = PurchaseTotalCost { costs };
        assert(r@[0].0 =~= trade_cost(conclusion_date, execution_date, volume, commission)[0].0);
        assert(r@ =~= trade_cost(conclusion_date, execution_date, volume, commission));
        r
    }

    /// A copy of the cost.
    pub fn duplicate(&self) -> (r: PurchaseTotalCost)
        ensures
            r@ == self@,
    {
        let mut costs: Vec<PurchaseCost> = Vec::new();
        for i in 0..self.costs.len()
            invariant
                costs@.len() == i,
                forall|j: int| 0 <= j < i ==> #[trigger] costs@[j]@ == self.costs@[j]@,
        {
            costs.push(self.costs[i].duplicate());
        }
        let r = PurchaseTotalCost { costs };
        assert(r@ =~= self@);
        r
    }

    /// The cost in `currency`, or its part of the given type: the accounted fraction
    /// of each payment, converted at the rate of its date and rounded to cents,
    /// summed up per purchase and then over the purchases. Without a payment of the
    /// type it is zero.
    pub fn calculate<V: CurrencyConverter>(
        &self, type_: Option<PurchaseCostType>, currency: Currency, converter: &V,
    ) -> (r: Result<Cash, Error>)
        ensures
            cost_in(converter, self@, type_, currency, r),
            r matches Ok(c) ==> c.currency == currency && c.amount@ == normal_form(c.amount@),
            !has_counted_transaction(self@, type_) ==> (r matches Ok(c) && c.amount@ == (0int, 0nat)),
    {
        let ghost costs = self@;
        let mut total_cost = Decimal::zero();
        let ghost mut totals: Seq<(int, nat)> = seq![(0int, 0nat)];
        for i in 0..self.costs.len()
            invariant
                costs == self@,
                self@.len() == self.costs@.len(),
                total_trace(converter, costs, type_, currency, totals),
                totals.len() == i + 1,
                totals.last() == total_cost@,
                (forall|k: int, j: int| 0 <= k < i && 0 <= j < self@[k].0.len() ==> !counts_for(#[trigger] self@[k].0[j], type_))
                    ==> total_cost@ == (0int, 0nat),
        {
            let cost = &self.costs[i];
            assert(cost@ == self@[i as int]);
            let mut purchase_cost = Decimal::zero();
            let ghost mut sums: Seq<(int, nat)> = seq![(0int, 0nat)];
            for j in 0..cost.transactions.len()
                invariant
                    costs == self@,
                    0 <= i < self@.len(),
                    cost@ == self@[i as int],
                    total_trace(converter, costs, type_, currency, totals),
                    totals.len() == i + 1,
                    totals.last() == total_cost@,
                    purchase_trace(converter, cost@, type_, currency, sums),
                    sums.len() == j + 1,
                    sums.last() == purchase_cost@,
                    (forall|t: int| 0 <= t < j ==> !counts_for(#[trigger] cost.transactions@[t], type_))
                        ==> purchase_cost@ == (0int, 0nat),
            {
                let transaction = cost.transactions[j];
                assert(transaction == cost@.0[j as int]);
                let counted = match type_ {
                    Some(t) => t == transaction.type_,
                    None => true,
                };
                let ghost before = sums;
                if counted {
                    assert(counts_for(self@[i as int].0[j as int], type_));
                    assert(has_counted_transaction(self@, type_));
                    let step = self.payment(i, j, purchase_cost, currency, converter);
                    match step {
                        Ok(sum) => {
                            purchase_cost = sum;
                            proof {
                                sums = sums.push(sum@);
                            }
                        },
                        Err(e) => {
                            proof {
                                assert(purchase_cost_result(converter, cost@, type_, currency, Err::<(int, nat), Error>(e)));
                                assert(cost_in(converter, costs, type_, currency, Err::<Cash, Error>(e)));
                            }
                            return Err(e);
                        },
                    }
                } else {
                    proof {
                        sums = sums.push(purchase_cost@);
                    }
                }
                proof {
                    assert(payment_done(converter, cost@, type_, currency, j as int, before.last(), sums.last()));
                    assert forall|t: int| 0 <= t < sums.len() - 1 implies
                        #[trigger] payment_done(converter, cost@, type_, currency, t, sums[t], sums[t + 1]) by {
                        if t < j {
                            assert(sums[t] == before[t] && sums[t + 1] == before[t + 1]);
                        }
                    }
                }
            }
            assert(cost@.0.len() == cost.transactions@.len());
            assert(purchase_cost_result(converter, cost@, type_, currency, Ok::<(int, nat), Error>(purchase_cost@)));
            let ghost before = totals;
            match total_cost.checked_add(purchase_cost) {
                Some(sum) => {
                    total_cost = sum;
                    proof {
                        totals = totals.push(sum@);
                        assert(purchase_added(converter, costs, type_, currency, i as int, before.last(), sum@));
                        assert forall|k: int| 0 <= k < totals.len() - 1 implies
                            #[trigger] purchase_added(converter, costs, type_, currency, k, totals[k], totals[k + 1]) by {
                            if k < i {
                                assert(totals[k] == before[k] && totals[k + 1] == before[k + 1]);
                            }
                        }
                    }
                },
                None => {
                    proof {
                        assert(cost_in(converter, costs, type_, currency, Err::<Cash, Error>(Error::Overflow)));
                    }
                    return Err(Error::Overflow);
                },
            }
            assert((forall|k: int, j: int| 0 <= k < i + 1 && 0 <= j < self@[k].0.len() ==> !counts_for(#[trigger] self@[k].0[j], type_))
                ==> total_cost@ == (0int, 0nat)) by {
                if forall|k: int, j: int| 0 <= k < i + 1 && 0 <= j < self@[k].0.len() ==> !counts_for(#[trigger] self@[k].0[j], type_) {
                    assert forall|t: int| 0 <= t < cost.transactions@.len() implies !counts_for(#[trigger] cost.transactions@[t], type_) by {
                        assert(self@[i as int].0[t] == cost.transactions@[t]);
                    }
                }
            }
        }
        let amount = total_cost.normalize();
        proof {
            crate::decimal::lemma_normal_form_idempotent(total_cost@);
        }
        let r = Ok(Cash::new(currency, amount));
        assert(cost_in(converter, costs, type_, currency, r));
        r
    }

    /// Payment `j` of purchase `i` added to `sum`, as `payment_step` says.
    fn payment<V: CurrencyConverter>(
        &self, i: usize, j: usize, sum: Decimal, currency: Currency, converter: &V,
    ) -> (r: Result<Decimal, Error>)
        requires
            i < self.costs@.len(),
            j < self.costs@[i as int].transactions@.len(),
        ensures
            payment_step(converter, self@[i as int].0[j as int], self@[i as int].1, currency, sum@,
                match r { Ok(d) => Ok::<(int, nat), Error>(d@), Err(e) => Err::<(int, nat), Error>(e) }),
    {
        let cost = &self.costs[i];
        let transaction = cost.transactions[j];
        assert(cost@ == self@[i as int]);
        if cost.fraction.denominator.is_zero() {
            return Err(Error::DivisionByZero);
        }
        let transaction_cost = match transaction.cost.div_by(cost.fraction.denominator) {
            Some(c) => c,
            None => return Err(Error::Overflow),
        };
        let transaction_cost = match transaction_cost.mul(cost.fraction.numerator) {
            Some(c) => c,
            None => return Err(Error::Overflow),
        };
        let converted = convert_to_rounding(converter, transaction.date, transaction_cost, currency);
        let r = match converted {
            Ok(converted) => match sum.checked_add(converted) {
                Some(total) => Ok(total),
                None => Err(Error::Overflow),
            },
            Err(e) => Err(e),
        };
        proof {
            let answer = choose|answer: Result<Decimal, Error>| #[trigger] converter_answers(converter, transaction.date,
                transaction_cost, currency, answer) && match answer {
                    Ok(c) => converted matches Ok(d) && d@ == rounded(c@),
                    Err(e) => converted == Err::<Decimal, Error>(e),
                };
            assert(converter_answers(converter, transaction.date, transaction_cost, currency, answer));
        }
        r
    }

    /// Adds the purchases of another cost to this one.
    pub fn add(&mut self, cost: &PurchaseTotalCost)
        ensures
            final(self)@ == old(self)@ + cost@,
    {
        let ghost start = self.costs@;
        for i in 0..cost.costs.len()
            invariant
                self.costs@.len() == start.len() + i,
                forall|j: int| 0 <= j < start.len() ==> #[trigger] self.costs@[j] == start[j],
                forall|j: int| 0 <= j < i ==> #[trigger] self.costs@[start.len() + j]@ == cost.costs@[j]@,
        {
            self.costs.push(cost.costs[i].duplicate());
        }
        assert(self@ =~= old(self)@ + cost@) by {
            assert forall|j: int| 0 <= j < self@.len() implies #[trigger] self@[j] == (old(self)@ + cost@)[j] by {
                if j >= start.len() {
                    assert(self.costs@[start.len() + (j - start.len())]@ == cost.costs@[j - start.len()]@);
                }
            }
        }
    }
}


/// The part of a purchase cost that is sold: the fractions of all purchases
/// multiplied by `part / whole`, where the products exist.
pub open spec fn scaled_cost_matches(
    scaled: Seq<PurchaseCostView>, cost: Seq<PurchaseCostView>, part: Decimal, whole: Decimal,
) -> bool {
    &&& scaled.len() == cost.len()
    &&& forall|i: int| 0 <= i < cost.len() ==> {
        &&& (#[trigger] scaled[i]).0 == cost[i].0
        &&& decimal_checked_mul(cost[i].1.numerator@, part@) == Some(scaled[i].1.numerator@)
        &&& decimal_checked_mul(cost[i].1.denominator@, whole@) == Some(scaled[i].1.denominator@)
    }
}

/// Scaling the purchase cost by `part / whole` overflows.
pub open spec fn cost_scaling_overflows(cost: Seq<PurchaseCostView>, part: Decimal, whole: Decimal) -> bool {
    exists|i: int| 0 <= i < cost.len() && (
        decimal_checked_mul((#[trigger] cost[i]).1.numerator@, part@) is None
        || decimal_checked_mul(cost[i].1.denominator@, whole@) is None)
}

/// The source of a part of a trade: the price stays, the volume is `price * part`
/// and the commission `commission / whole * part`, where these exist.
pub open spec fn scaled_source_matches(scaled: StockSource, source: StockSource, part: Decimal, whole: Decimal) -> bool {
    match (source, scaled) {
        (StockSource::Trade { price, volume: _, commission }, StockSource::Trade { price: p, volume: v, commission: c }) => {
            &&& p == price
            &&& v.currency == price.currency
            &&& decimal_checked_mul(price.amount@, part@) == Some(v.amount@)
            &&& c.currency == commission.currency
            &&& decimal_checked_div(commission.amount@, whole@) matches Some(per_unit)
            &&& decimal_checked_mul(per_unit, part@) == Some(c.amount@)
        },
        (StockSource::CorporateAction, StockSource::CorporateAction) => true,
        _ => false,
    }
}

/// Scaling the source of a trade by `part / whole` overflows or divides by zero.
pub open spec fn source_scaling_fails(source: StockSource, part: Decimal, whole: Decimal) -> bool {
    match source {
        StockSource::Trade { price, volume: _, commission } => {
            ||| decimal_checked_mul(price.amount@, part@) is None
            ||| match decimal_checked_div(commission.amount@, whole@) {
                Some(per_unit) => decimal_checked_mul(per_unit, part@) is None,
                None => true,
            }
        },
        StockSource::CorporateAction => false,
    }
}

/// `quantity` stocks can be sold out of a position of `total` stocks of which
/// `sold` are sold: the unsold quantity, as `rust_decimal` computes it, is not
/// below it, and the sold quantity can grow by it.
pub open spec fn can_sell(total: Decimal, sold: Decimal, quantity: Decimal) -> bool {
    &&& decimal_checked_sub(total@, sold@) matches Some(unsold)
    &&& !less_value(unsold, quantity@)
    &&& decimal_checked_add(sold@, quantity@) is Some
}

/// The sold quantity of a position after a sell of `quantity` stocks, as `sell`
/// adds it up: onto nothing sold it is the quantity sold, a sell of nothing leaves
/// it, else it is the exact sum at the larger scale.
pub open spec fn sold_step(sold: (int, nat), quantity: (int, nat)) -> (int, nat) {
    if sold.0 == 0 {
        quantity
    } else if quantity.0 == 0 {
        sold
    } else {
        crate::decimal::aligned_sum(sold, quantity)
    }
}

/// The sold quantity of a position after sells of the quantities `sells` in turn,
/// from `sold`.
pub open spec fn sold_after(sold: (int, nat), sells: Seq<(int, nat)>) -> (int, nat)
    decreases sells.len(),
{
    if sells.len() == 0 {
        sold
    } else {
        sold_step(sold_after(sold, sells.drop_last()), sells.last())
    }
}

/// The unsold quantity of a position of `quantity` stocks of which `sold` are sold,
/// as `get_unsold` computes it: the exact difference at the larger scale, where
/// neither is zero.
pub open spec fn unsold_of(quantity: (int, nat), sold: (int, nat)) -> (int, nat) {
    if quantity.0 == 0 {
        (-sold.0, sold.1)
    } else if sold.0 == 0 {
        quantity
    } else {
        crate::decimal::aligned_difference(quantity, sold)
    }
}

/// The quantities `sells` written at scale `n` and added up.
pub open spec fn total_at(sells: Seq<(int, nat)>, n: nat) -> int
    decreases sells.len(),
{
    if sells.len() == 0 {
        0
    } else {
        total_at(sells.drop_last(), n) + crate::decimal::value_at(sells.last(), n)
    }
}

/// What selling `quantity` stocks of the position `before` (each `multiplier`
/// stocks of the sell) does, where the position can give them: on success they
/// count as sold (`after`), and the returned source carries the stocks' part of the
/// position, all of it where the whole position is sold, else the purchase cost and
/// the trade scaled by `quantity / before.quantity`; where that scaling overflows
/// (or divides by zero) nothing changes and that error is returned.
pub open spec fn sell_done(
    before: StockBuy, after: StockBuy, quantity: Decimal, multiplier: Decimal, r: Result<StockSellSource, Error>,
) -> bool {
    &&& r is Err ==> after == before
    &&& r matches Err(e) ==> e == Error::Overflow || e == Error::DivisionByZero
    &&& r is Err ==> !same_value(quantity@, before.quantity@)
    &&& r is Err ==> cost_scaling_overflows(before.cost@, quantity, before.quantity)
        || source_scaling_fails(before.type_, quantity, before.quantity)
    &&& r is Ok ==> Some(after.sold@) == decimal_checked_add(before.sold@, quantity@)
    &&& r is Ok && before.sold@.0 == 0 ==> after.sold == quantity
    &&& r is Ok && before.sold@.0 != 0 && quantity@.0 != 0
        && crate::decimal::valid(crate::decimal::aligned_sum(before.sold@, quantity@))
        ==> after.sold@ == crate::decimal::aligned_sum(before.sold@, quantity@)
    &&& r is Ok && (before.sold@.0 == 0 || quantity@.0 == 0
        || crate::decimal::valid(crate::decimal::aligned_sum(before.sold@, quantity@)))
        ==> after.sold@ == sold_step(before.sold@, quantity@)
    &&& r is Ok ==> after.symbol == before.symbol && after.quantity == before.quantity
        && after.type_ == before.type_ && after.cost@ == before.cost@
        && after.margin == before.margin && after.conclusion_time == before.conclusion_time
        && after.execution_date == before.execution_date
    &&& r matches Ok(source) ==> source.quantity == quantity && source.multiplier == multiplier
        && source.conclusion_time == before.conclusion_time && source.execution_date == before.execution_date
    &&& r matches Ok(source) ==> (same_value(quantity@, before.quantity@) ==> source.type_ == before.type_
        && source.cost@ == before.cost@)
    &&& r matches Ok(source) ==> (!same_value(quantity@, before.quantity@) ==>
        scaled_source_matches(source.type_, before.type_, quantity, before.quantity)
        && scaled_cost_matches(source.cost@, before.cost@, quantity, before.quantity))
}

/// A bought stock position.
#[derive(Debug)]
pub struct StockBuy {
    pub symbol: String,
    pub quantity: Decimal,
    pub type_: StockSource,
    /// The purchase cost of the whole position.
    pub cost: PurchaseTotalCost,
    pub margin: bool,
    pub conclusion_time: DateOptTime,
    pub execution_date: Date,
    /// The quantity sold so far.
    pub sold: Decimal,
}

/// A part of a bought position that a sell takes.
#[derive(Clone, Debug)]
pub struct StockSellSource {
    pub quantity: Decimal,
    pub multiplier: Decimal,
    pub type_: StockSource,
    pub cost: PurchaseTotalCost,
    pub conclusion_time: DateOptTime,
    pub execution_date: Date,
}

impl StockBuy {
    /// A position bought by a trade; of the conclusion time only the date is kept.
    pub fn new_trade(
        symbol: &str, quantity: Decimal, price: Cash, volume: Cash, commission: Cash,
        conclusion_time: DateOptTime, execution_date: Date, margin: bool,
    ) -> (r: StockBuy)
        ensures
            r.symbol@ == symbol@,
            r.quantity == quantity,
            r.type_ == (StockSource::Trade { price, volume, commission }),
            r.cost@ == trade_cost(conclusion_time.date, execution_date, volume, commission),
            r.margin == margin,
            r.conclusion_time.date == conclusion_time.date,
            r.conclusion_time.time is None,
            r.execution_date == execution_date,
            r.sold@ == (0int, 0nat),
    {
        let cost = PurchaseTotalCost::new_from_trade(conclusion_time.date, execution_date, volume, commission);
        StockBuy {
            symbol: symbol.to_owned(),
            quantity,
            type_: StockSource::Trade { price, volume, commission },
            cost,
            margin,
            conclusion_time: DateOptTime::from_date(conclusion_time.date),
            execution_date,
            sold: Decimal::zero(),
        }
    }

    /// A position acquired by a corporate action; of the conclusion time only the
    /// date is kept.
    pub fn new_corporate_action(
        symbol: &str, quantity: Decimal, cost: PurchaseTotalCost,
        conclusion_time: DateOptTime, execution_date: Date,
    ) -> (r: StockBuy)
        ensures
            r.symbol@ == symbol@,
            r.quantity == quantity,
            r.type_ == StockSource::CorporateAction,
            r.cost@ == cost@,
            !r.margin,
            r.conclusion_time.date == conclusion_time.date,
            r.conclusion_time.time is None,
            r.execution_date == execution_date,
            r.sold@ == (0int, 0nat),
    {
        StockBuy {
            symbol: symbol.to_owned(),
            quantity,
            type_: StockSource::CorporateAction,
            cost,
            margin: false,
            conclusion_time: DateOptTime::from_date(conclusion_time.date),
            execution_date,
            sold: Decimal::zero(),
        }
    }

    /// The whole position is sold.
    pub fn is_sold(&self) -> (r: bool)
        ensures
            r == same_value(self.sold@, self.quantity@),
    {
        self.sold.equals(&self.quantity)
    }

    /// The quantity not sold yet.
    pub fn get_unsold(&self) -> (r: Decimal)
        requires
            decimal_checked_sub(self.quantity@, self.sold@) is Some,
        ensures
            Some(r@) == decimal_checked_sub(self.quantity@, self.sold@),
            self.sold@.0 == 0 && self.quantity@.0 != 0 ==> r == self.quantity,
            self.sold@ == self.quantity@ ==> r@ == (0int, self.quantity@.1),
            self.quantity@.0 == 0 || self.sold@.0 == 0
                || crate::decimal::valid(crate::decimal::aligned_difference(self.quantity@, self.sold@))
                ==> r@ == unsold_of(self.quantity@, self.sold@),
            self.quantity@.0 != 0 && self.sold@.0 != 0
                && crate::decimal::valid(crate::decimal::aligned_difference(self.quantity@, self.sold@))
                ==> r@ == crate::decimal::aligned_difference(self.quantity@, self.sold@),
    {
        match self.quantity.checked_sub(self.sold) {
            Some(unsold) => unsold,
            None => self.quantity,
        }
    }

    /// Sells `quantity` stocks of the position (each of them `multiplier` stocks of
    /// the sell, after a split): they count as sold, and the returned source carries
    /// the stocks' part of the position: all of it where the whole position is sold,
    /// else the purchase cost and the trade scaled by `quantity / self.quantity`.
    /// Where that scaling overflows, nothing changes and `Error::Overflow` is
    /// returned (`Error::DivisionByZero` where the position's quantity is zero).
    pub fn sell(&mut self, quantity: Decimal, multiplier: Decimal) -> (r: Result<StockSellSource, Error>)
        requires
            can_sell(old(self).quantity, old(self).sold, quantity),
        ensures
            sell_done(*old(self), *final(self), quantity, multiplier, r),
    {
        let unsold = self.get_unsold();
        assert(!less_value(unsold@, quantity@));
        let sold = match self.sold.checked_add(quantity) {
            Some(sold) => sold,
            None => self.sold,
        };

        let mut cost = self.cost.duplicate();
        let type_ = if quantity.equals(&self.quantity) {
            self.type_
        } else {
            cost = self.scale_cost(quantity)?;
            match self.type_ {
                StockSource::Trade { price, volume: _, commission } => {
                    let volume = match price.mul(quantity) {
                        Some(volume) => volume,
                        None => return Err(Error::Overflow),
                    };
                    let per_unit = match commission.div_by(self.quantity) {
                        Some(per_unit) => per_unit,
                        None => {
                            if self.quantity.is_zero() {
                                return Err(Error::DivisionByZero);
                            }
                            return Err(Error::Overflow);
                        },
                    };
                    let commission = match per_unit.mul(quantity) {
                        Some(commission) => commission,
                        None => return Err(Error::Overflow),
                    };
                    StockSource::Trade { price, volume, commission }
                },
                StockSource::CorporateAction => StockSource::CorporateAction,
            }
        };

        self.sold = sold;
        Ok(StockSellSource {
            quantity,
            multiplier,
            type_,
            cost,
            conclusion_time: self.conclusion_time,
            execution_date: self.execution_date,
        })
    }

    /// `sell` where the position can give `quantity` stocks; else nothing changes and
    /// `Error::InsufficientQuantity` is returned (`Error::Overflow` where the unsold
    /// or the sold quantity cannot be computed).
    pub fn try_sell(&mut self, quantity: Decimal, multiplier: Decimal) -> (r: Result<StockSellSource, Error>)
        ensures
            !can_sell(old(self).quantity, old(self).sold, quantity) ==> r is Err && *final(self) == *old(self),
            can_sell(old(self).quantity, old(self).sold, quantity) ==> sell_done(*old(self), *final(self), quantity, multiplier, r),
            r matches Err(e) ==> *final(self) == *old(self) && (e == Error::InsufficientQuantity <==> (
                decimal_checked_sub(old(self).quantity@, old(self).sold@) matches Some(unsold) && less_value(unsold, quantity@))),
    {
        let unsold = match self.quantity.checked_sub(self.sold) {
            Some(unsold) => unsold,
            None => return Err(Error::Overflow),
        };
        if unsold.less_than(&quantity) {
            return Err(Error::InsufficientQuantity);
        }
        if self.sold.checked_add(quantity).is_none() {
            return Err(Error::Overflow);
        }
        self.sell(quantity, multiplier)
    }

    /// The purchase cost with every fraction multiplied by `part / self.quantity`.
    fn scale_cost(&self, part: Decimal) -> (r: Result<PurchaseTotalCost, Error>)
        ensures
            r matches Ok(scaled) ==> scaled_cost_matches(scaled@, self.cost@, part, self.quantity),
            r is Err ==> r == Err::<PurchaseTotalCost, Error>(Error::Overflow)
                && cost_scaling_overflows(self.cost@, part, self.quantity),
    {
        let mut costs: Vec<PurchaseCost> = Vec::new();
        for i in 0..self.cost.costs.len()
            invariant
                self.cost@.len() == self.cost.costs@.len(),
                costs@.len() == i,
                forall|j: int| 0 <= j < i ==> {
                    &&& (#[trigger] costs@[j])@.0 == self.cost@[j].0
                    &&& decimal_checked_mul(self.cost@[j].1.numerator@, part@) == Some(costs@[j].fraction.numerator@)
                    &&& decimal_checked_mul(self.cost@[j].1.denominator@, self.quantity@) == Some(costs@[j].fraction.denominator@)
                },
        {
            let mut cost = self.cost.costs[i].duplicate();
            assert(cost@ == self.cost@[i as int]);
            let numerator = match cost.fraction.numerator.checked_mul(part) {
                Some(n) => n,
                None => return Err(Error::Overflow),
            };
            let denominator = match cost.fraction.denominator.checked_mul(self.quantity) {
                Some(d) => d,
                None => return Err(Error::Overflow),
            };
            cost.fraction = Fraction { numerator, denominator };
            costs.push(cost);
        }
        let scaled = PurchaseTotalCost { costs };
        Ok(scaled)
    }
}


/// How a stock position was sold.
#[derive(Clone, Copy, Debug)]
pub enum StockSellType {
    /// An ordinary trade. `volume` may differ slightly from `price * quantity` due to
    /// rounding on the broker side.
    Trade { price: Cash, volume: Cash, commission: Cash },
    /// A non-trade operation of a corporate action that does not touch the cash
    /// balance and leads to no taxes: an emulated sell converting a position on a
    /// stock split.
    CorporateAction,
}

/// The number of stocks that the sources of a sell account for: the sum of
/// `multiplier * quantity` over them, as `rust_decimal` computes it.
pub open spec fn sources_quantity(sources: Seq<StockSellSource>) -> Option<(int, nat)>
    decreases sources.len(),
{
    if sources.len() == 0 {
        Some((0int, 0nat))
    } else {
        match (sources_quantity(sources.drop_last()), decimal_checked_mul(sources.last().multiplier@, sources.last().quantity@)) {
            (Some(total), Some(part)) => decimal_checked_add(total, part),
            _ => None,
        }
    }
}

/// The sources account for exactly `quantity` stocks.
pub open spec fn sources_match(sources: Seq<StockSellSource>, quantity: Decimal) -> bool {
    sources_quantity(sources) matches Some(total) && same_value(total, quantity@)
}

/// A sold stock position.
#[derive(Clone, Debug)]
pub struct StockSell {
    pub symbol: String,
    pub quantity: Decimal,
    pub type_: StockSellType,
    pub margin: bool,
    pub conclusion_time: DateOptTime,
    pub execution_date: Date,
    pub emulation: bool,
    /// The bought positions that the sell takes, in FIFO order; empty until the sell
    /// is processed.
    pub sources: Vec<StockSellSource>,
}

impl StockSell {
    /// A position sold by a trade; it is not processed yet.
    pub fn new_trade(
        symbol: &str, quantity: Decimal, price: Cash, volume: Cash, commission: Cash,
        conclusion_date: Date, execution_date: Date, margin: bool, emulation: bool,
    ) -> (r: StockSell)
        ensures
            r.symbol@ == symbol@,
            r.quantity == quantity,
            r.type_ == (StockSellType::Trade { price, volume, commission }),
            r.margin == margin,
            r.conclusion_time.date == conclusion_date,
            r.conclusion_time.time is None,
            r.execution_date == execution_date,
            r.emulation == emulation,
            r.sources@.len() == 0,
    {
        StockSell {
            symbol: symbol.to_owned(),
            quantity,
            type_: StockSellType::Trade { price, volume, commission },
            margin,
            conclusion_time: DateOptTime::from_date(conclusion_date),
            execution_date,
            emulation,
            sources: Vec::new(),
        }
    }

    /// A position sold by a corporate action; it is not processed yet.
    pub fn new_corporate_action(
        symbol: &str, quantity: Decimal, conclusion_date: Date, execution_date: Date,
    ) -> (r: StockSell)
        ensures
            r.symbol@ == symbol@,
            r.quantity == quantity,
            r.type_ == StockSellType::CorporateAction,
            !r.margin,
            r.conclusion_time.date == conclusion_date,
            r.conclusion_time.time is None,
            r.execution_date == execution_date,
            !r.emulation,
            r.sources@.len() == 0,
    {
        StockSell {
            symbol: symbol.to_owned(),
            quantity,
            type_: StockSellType::CorporateAction,
            margin: false,
            conclusion_time: DateOptTime::from_date(conclusion_date),
            execution_date,
            emulation: false,
            sources: Vec::new(),
        }
    }

    /// The sell has been matched with the bought positions it takes.
    pub fn is_processed(&self) -> (r: bool)
        ensures
            r == (self.sources@.len() != 0),
    {
        self.sources.len() != 0
    }

    /// Matches the sell with the bought positions it takes, which must account for
    /// exactly the sold quantity.
    pub fn process(&mut self, sources: Vec<StockSellSource>)
        requires
            old(self).sources@.len() == 0,
            sources_match(sources@, old(self).quantity),
        ensures
            final(self).sources@ == sources@,
            final(self).symbol == old(self).symbol,
            final(self).quantity == old(self).quantity,
            final(self).type_ == old(self).type_,
            final(self).margin == old(self).margin,
            final(self).conclusion_time == old(self).conclusion_time,
            final(self).execution_date == old(self).execution_date,
            final(self).emulation == old(self).emulation,
    {
        self.sources = sources;
    }

    /// Matches the sell with the given bought positions where it is not processed
    /// yet and they account for exactly the sold quantity; else leaves it unchanged
    /// and returns `Error::Inconsistency` (`Error::Overflow` where the quantity of
    /// the positions cannot be computed).
    pub fn try_process(&mut self, sources: Vec<StockSellSource>) -> (r: Result<(), Error>)
        ensures
            r is Ok <==> old(self).sources@.len() == 0 && sources_match(sources@, old(self).quantity),
            r is Ok ==> final(self).sources@ == sources@,
            r is Err ==> *final(self) == *old(self),
            r matches Err(e) ==> (e == Error::Overflow <==> old(self).sources@.len() == 0 && sources_quantity(sources@) is None),
    {
        if self.is_processed() {
            return Err(Error::Inconsistency);
        }
        let total = match total_quantity(&sources) {
            Some(total) => total,
            None => return Err(Error::Overflow),
        };
        if !total.equals(&self.quantity) {
            return Err(Error::Inconsistency);
        }
        self.process(sources);
        Ok(())
    }
}

/// The number of stocks that the sources account for.
pub fn total_quantity(sources: &Vec<StockSellSource>) -> (r: Option<Decimal>)
    ensures
        crate::decimal::option_view(r) == sources_quantity(sources@),
{
    let mut total = Decimal::zero();
    for i in 0..sources.len()
        invariant
            sources_quantity(sources@.take(i as int)) == Some(total@),
    {
        assert(sources@.take(i + 1).drop_last() =~= sources@.take(i as int));
        let part = match sources[i].multiplier.checked_mul(sources[i].quantity) {
            Some(part) => part,
            None => {
                proof {
                    lemma_sources_quantity_none(sources@, i + 1);
                }
                return None;
            },
        };
        total = match total.checked_add(part) {
            Some(total) => total,
            None => {
                proof {
                    lemma_sources_quantity_none(sources@, i + 1);
                }
                return None;
            },
        };
    }
    assert(sources@.take(sources.len() as int) =~= sources@);
    Some(total)
}

/// Where the count over a prefix fails, so does the count over the whole.
proof fn lemma_sources_quantity_none(sources: Seq<StockSellSource>, n: int)
    requires
        0 <= n <= sources.len(),
        sources_quantity(sources.take(n)) is None,
    ensures
        sources_quantity(sources) is None,
    decreases sources.len() - n,
{
    if n == sources.len() {
        assert(sources.take(n) =~= sources);
    } else {
        assert(sources.take(n + 1).drop_last() =~= sources.take(n));
        lemma_sources_quantity_none(sources, n + 1);
    }
}


/// What a sell takes from a bought position, as its FIFO match.
pub enum StockSourceDetails {
    Trade { price: Cash, commission: Cash, local_commission: Cash, cost: Cash, local_cost: Cash },
    CorporateAction,
}

/// A bought position that a sell takes, with its costs.
///
/// The price and the costs may be zero due to corporate actions or other
/// non-trade operations.
pub struct FifoDetails {
    pub quantity: Decimal,
    pub multiplier: Decimal,
    pub conclusion_time: DateOptTime,
    pub execution_date: Date,
    pub source: StockSourceDetails,
    pub cost: PurchaseTotalCost,
    pub tax_exemption_applied: bool,
}

/// The FIFO details describe the given source: its quantities, dates and purchase
/// cost, and for a trade its price, its commission and volume rounded to cents and
/// both converted into the local currency.
pub open spec fn fifo_describes(details: FifoDetails, source: StockSellSource, local_currency: Currency) -> bool {
    &&& details.quantity == source.quantity
    &&& details.multiplier == source.multiplier
    &&& details.conclusion_time == source.conclusion_time
    &&& details.execution_date == source.execution_date
    &&& details.cost@ == source.cost@
    &&& match (source.type_, details.source) {
        (StockSource::Trade { price, volume, commission },
         StockSourceDetails::Trade { price: p, commission: c, local_commission: lc, cost: co, local_cost: lco }) => {
            &&& p == price
            &&& c.currency == commission.currency && c.amount@ == rounded(commission.amount@)
            &&& co.currency == volume.currency && co.amount@ == rounded(volume.amount@)
            &&& lc.currency == local_currency
            &&& lco.currency == local_currency
        },
        (StockSource::CorporateAction, StockSourceDetails::CorporateAction) => true,
        _ => false,
    }
}

/// The local cost and the local commission of FIFO details are what `converter`
/// answered for the cost at the execution date and for the commission at the
/// conclusion date, rounded to cents.
pub open spec fn fifo_converted<V: CurrencyConverter>(details: FifoDetails, local_currency: Currency, converter: &V) -> bool {
    match details.source {
        StockSourceDetails::Trade { commission, local_commission, cost, local_cost, .. } => {
            &&& exists|a: Result<Decimal, Error>| #[trigger] converter_answers(converter, details.execution_date, cost,
                local_currency, a) && (a matches Ok(x) && local_cost.amount@ == rounded(x@))
            &&& exists|a: Result<Decimal, Error>| #[trigger] converter_answers(converter, details.conclusion_time.date,
                commission, local_currency, a) && (a matches Ok(x) && local_commission.amount@ == rounded(x@))
        },
        StockSourceDetails::CorporateAction => true,
    }
}

/// `r` is the price of `quantity` stocks bought for `volume`: the volume divided by
/// the quantity (`Error::DivisionByZero` for no stocks, `Error::Overflow` where the
/// division overflows).
pub open spec fn price_of(quantity: Decimal, volume: Cash, r: Result<Cash, Error>) -> bool {
    &&& quantity@.0 == 0 ==> r == Err::<Cash, Error>(Error::DivisionByZero)
    &&& quantity@.0 != 0 ==> match r {
        Ok(price) => price.currency == volume.currency
            && decimal_checked_div(volume.amount@, quantity@) == Some(price.amount@),
        Err(e) => e == Error::Overflow && decimal_checked_div(volume.amount@, quantity@) is None,
    }
}

/// The price of `quantity` stocks bought for `volume`.
pub fn calculate_price(quantity: Decimal, volume: Cash) -> (r: Result<Cash, Error>)
    ensures
        price_of(quantity, volume, r),
{
    if quantity.is_zero() {
        return Err(Error::DivisionByZero);
    }
    match volume.div_by(quantity) {
        Some(price) => Ok(price),
        None => Err(Error::Overflow),
    }
}

impl FifoDetails {
    /// The FIFO details of a source, with no tax exemption applied yet.
    pub fn new<V: CurrencyConverter>(
        source: &StockSellSource, local_currency: Currency, converter: &V,
    ) -> (r: Result<FifoDetails, Error>)
        ensures
            fifo_new_outcome(converter, *source, local_currency, r),
            r matches Ok(details) ==> fifo_describes(details, *source, local_currency) && !details.tax_exemption_applied
                && fifo_converted(details, local_currency, converter),
            source.type_ is CorporateAction ==> r is Ok,
            r matches Err(e) ==> source.type_ matches StockSource::Trade { volume, commission, .. } && (
                (exists|cost: Cash| cost.amount@ == rounded(volume.amount@)
                    && #[trigger] converter_answers(converter, source.execution_date, cost, local_currency, Err::<Decimal, Error>(e)))
                || (exists|fee: Cash| fee.amount@ == rounded(commission.amount@)
                    && #[trigger] converter_answers(converter, source.conclusion_time.date, fee, local_currency, Err::<Decimal, Error>(e)))),
    {
        let details = match source.type_ {
            StockSource::Trade { price, volume, commission } => {
                let cost = volume.round();
                let local_cost = convert_to_cash_rounding(converter, source.execution_date, cost, local_currency)?;
                let commission = commission.round();
                let local_commission = convert_to_cash_rounding(
                    converter, source.conclusion_time.date, commission, local_currency)?;
                let details = StockSourceDetails::Trade { price, commission, local_commission, cost, local_cost };
                assert(exists|a: Result<Decimal, Error>| #[trigger] converter_answers(converter, source.execution_date, cost,
                    local_currency, a) && (a matches Ok(x) && local_cost.amount@ == rounded(x@)));
                details
            },
            StockSource::CorporateAction => StockSourceDetails::CorporateAction,
        };
        Ok(FifoDetails {
            quantity: source.quantity,
            multiplier: source.multiplier,
            conclusion_time: source.conclusion_time,
            execution_date: source.execution_date,
            source: details,
            cost: source.cost.duplicate(),
            tax_exemption_applied: false,
        })
    }

    /// The price of a stock in `currency`: the trade price where it is in that
    /// currency, else the cost of the stocks divided by their quantity.
    pub fn price<V: CurrencyConverter>(&self, currency: Currency, converter: &V) -> (r: Result<Cash, Error>)
        ensures
            (self.source matches StockSourceDetails::Trade { price, .. } && price.currency == currency)
                ==> r == Ok::<Cash, Error>(self.source->price),
            !(self.source matches StockSourceDetails::Trade { price, .. } && price.currency == currency)
                ==> exists|cost: Result<Cash, Error>| #[trigger] cost_in(converter, self.cost@, Some(PurchaseCostType::Trade), currency, cost)
                    && match cost {
                        Ok(c) => price_of(self.quantity, c, r),
                        Err(e) => r == Err::<Cash, Error>(e),
                    },
            r matches Ok(price) ==> price.currency == currency,
    {
        if let StockSourceDetails::Trade { price, .. } = self.source {
            if price.currency == currency {
                return Ok(price);
            }
        }
        let cost = self.cost(currency, converter);
        assert(cost_in(converter, self.cost@, Some(PurchaseCostType::Trade), currency, cost));
        match cost {
            Ok(cost) => calculate_price(self.quantity, cost),
            Err(e) => Err(e),
        }
    }

    /// The cost of the stocks in `currency`, commissions excluded.
    pub fn cost<V: CurrencyConverter>(&self, currency: Currency, converter: &V) -> (r: Result<Cash, Error>)
        ensures
            cost_in(converter, self.cost@, Some(PurchaseCostType::Trade), currency, r),
            r matches Ok(c) ==> c.currency == currency && c.amount@ == normal_form(c.amount@),
            !has_counted_transaction(self.cost@, Some(PurchaseCostType::Trade)) ==> (r matches Ok(c) && c.amount@ == (0int, 0nat)),
    {
        self.cost.calculate(Some(PurchaseCostType::Trade), currency, converter)
    }

    /// The cost of the stocks in `currency`, commissions included.
    pub fn total_cost<V: CurrencyConverter>(&self, currency: Currency, converter: &V) -> (r: Result<Cash, Error>)
        ensures
            cost_in(converter, self.cost@, None, currency, r),
            r matches Ok(c) ==> c.currency == currency && c.amount@ == normal_form(c.amount@),
            !has_counted_transaction(self.cost@, None) ==> (r matches Ok(c) && c.amount@ == (0int, 0nat)),
    {
        self.cost.calculate(None, currency, converter)
    }
}


/// The results of a stock sell.
///
/// The costs, the profits and the tax may be zero due to corporate actions or other
/// non-trade operations.
pub struct SellDetails {
    pub revenue: Cash,
    pub local_revenue: Cash,
    pub local_commission: Cash,

    pub purchase_local_cost: Cash,
    pub total_local_cost: Cash,

    pub profit: Cash,
    pub local_profit: Cash,
    pub taxable_local_profit: Cash,

    pub tax_to_pay: Cash,
    pub tax_deduction: Cash,

    pub real_tax_ratio: Option<Decimal>,
    pub real_profit_ratio: Option<Decimal>,
    pub real_local_profit_ratio: Option<Decimal>,

    pub fifo: Vec<FifoDetails>,
}

/// Some FIFO match of the sell has a tax exemption applied.
pub open spec fn some_exemption_applied(fifo: Seq<FifoDetails>) -> bool {
    exists|i: int| 0 <= i < fifo.len() && (#[trigger] fifo[i]).tax_exemption_applied
}

impl SellDetails {
    /// A tax exemption applies to the sell. Where none applies, the taxable profit
    /// must be the whole profit and there must be no tax deduction.
    pub fn tax_exemption_applied(&self) -> (r: bool)
        requires
            !some_exemption_applied(self.fifo@) ==> self.taxable_local_profit.currency == self.local_profit.currency
                && same_value(self.taxable_local_profit.amount@, self.local_profit.amount@)
                && self.tax_deduction.amount@.0 == 0,
        ensures
            r == some_exemption_applied(self.fifo@),
    {
        for i in 0..self.fifo.len()
            invariant
                forall|j: int| 0 <= j < i ==> !(#[trigger] self.fifo@[j]).tax_exemption_applied,
        {
            if self.fifo[i].tax_exemption_applied {
                return true;
            }
        }
        false
    }
}

/// Some tax exemption applies whatever the profit.
pub open spec fn forced_exemption(tax_exemptions: Seq<TaxExemption>) -> bool {
    exists|i: int| 0 <= i < tax_exemptions.len() && (#[trigger] tax_exemptions[i]).force
}

/// Some tax exemption may apply.
pub open spec fn possible_exemption(tax_exemptions: Seq<TaxExemption>) -> bool {
    exists|i: int| 0 <= i < tax_exemptions.len() && (#[trigger] tax_exemptions[i]).exemptible
}

/// Whether the exemptions may apply and whether one applies whatever the profit.
fn exemption_applicability(tax_exemptions: &[TaxExemption]) -> (r: (bool, bool))
    ensures
        r.1 == forced_exemption(tax_exemptions@),
        !r.1 ==> r.0 == possible_exemption(tax_exemptions@),
{
    let mut exemptible = false;
    for i in 0..tax_exemptions.len()
        invariant
            forall|j: int| 0 <= j < i ==> !(#[trigger] tax_exemptions@[j]).force,
            exemptible == exists|j: int| 0 <= j < i && (#[trigger] tax_exemptions@[j]).exemptible,
    {
        let (applicable, force) = tax_exemptions[i].is_applicable();
        exemptible = exemptible || applicable;
        if force {
            return (exemptible, true);
        }
    }
    (exemptible, false)
}

/// A sell that can be calculated: a trade whose price and volume are in one
/// currency, of a nonzero quantity, matched with bought positions that account for
/// exactly that quantity.
pub open spec fn calculable(sell: StockSell) -> bool {
    &&& sell.type_ matches StockSellType::Trade { price, volume, .. } && price.currency == volume.currency
    &&& sell.quantity@.0 != 0
    &&& sources_match(sell.sources@, sell.quantity)
}

/// What the results of a sell state of it, whatever the currency converter and the
/// tax rules answered: a FIFO match per source describing it; the exemption applied
/// where one is forced and not applied where none may apply; the revenue is the
/// volume rounded to cents; the local amounts are in one currency; the total local
/// cost, the local profit and the real local profit ratio follow from the other
/// results; the tax deduction is not negative.
pub open spec fn sell_details_describe(details: SellDetails, sell: StockSell, tax_exemptions: Seq<TaxExemption>) -> bool {
    let local = details.local_revenue.currency;
    &&& details.fifo@.len() == sell.sources@.len()
    &&& forall|i: int| 0 <= i < sell.sources@.len() ==> fifo_describes(#[trigger] details.fifo@[i], sell.sources@[i], local)
    &&& forall|i: int| 0 <= i < sell.sources@.len() && forced_exemption(tax_exemptions) ==> (#[trigger] details.fifo@[i]).tax_exemption_applied
    &&& forall|i: int| 0 <= i < sell.sources@.len() && !forced_exemption(tax_exemptions) && !possible_exemption(tax_exemptions)
        ==> !(#[trigger] details.fifo@[i]).tax_exemption_applied
    &&& sell.type_ matches StockSellType::Trade { price, volume, .. }
        && details.revenue.currency == volume.currency && details.revenue.amount@ == rounded(volume.amount@)
        && details.profit.currency == price.currency
    &&& details.local_commission.currency == local
    &&& details.purchase_local_cost.currency == local
    &&& details.total_local_cost.currency == local
    &&& details.local_profit.currency == local
    &&& details.taxable_local_profit.currency == local
    &&& details.tax_to_pay.currency == local
    &&& details.tax_deduction.currency == local
    &&& cash_sum(details.purchase_local_cost, details.local_commission) == Ok::<(int, nat), Error>(details.total_local_cost.amount@)
    &&& cash_difference(details.local_revenue, details.total_local_cost) == Ok::<(int, nat), Error>(details.local_profit.amount@)
    &&& details.tax_deduction.amount@.0 >= 0
    &&& (details.real_tax_ratio is None <==> details.profit.amount@.0 == 0)
    &&& (details.real_local_profit_ratio is None <==> details.purchase_local_cost.amount@.0 == 0)
    &&& details.real_local_profit_ratio matches Some(ratio) ==> (
        cash_difference(details.local_profit, details.tax_to_pay) matches Ok(real_profit)
        && decimal_checked_div(real_profit, details.purchase_local_cost.amount@) == Some(ratio@))
}


/// The fields of FIFO details that copy the source they describe, with no tax
/// exemption applied.
pub open spec fn fifo_copies(details: FifoDetails, source: StockSellSource) -> bool {
    &&& details.quantity == source.quantity
    &&& details.multiplier == source.multiplier
    &&& details.conclusion_time == source.conclusion_time
    &&& details.execution_date == source.execution_date
    &&& details.cost@ == source.cost@
    &&& !details.tax_exemption_applied
}

/// `r` can be the FIFO details of `source` in the local currency: for a trade, its
/// volume and commission rounded to cents and converted by `converter` at the
/// execution and the conclusion date (the first error that the converter answers
/// is returned).
pub open spec fn fifo_new_outcome<V: CurrencyConverter>(
    converter: &V, source: StockSellSource, local: Currency, r: Result<FifoDetails, Error>,
) -> bool {
    match source.type_ {
        StockSource::CorporateAction => (r matches Ok(details) && fifo_copies(details, source)
            && details.source == StockSourceDetails::CorporateAction),
        StockSource::Trade { price, volume, commission } => exists|cost: Cash, cost_answer: Result<Decimal, Error>|
            cost.currency == volume.currency && cost.amount@ == rounded(volume.amount@)
            && #[trigger] converter_answers(converter, source.execution_date, cost, local, cost_answer)
            && match cost_answer {
                Err(e) => r == Err::<FifoDetails, Error>(e),
                Ok(x) => exists|fee: Cash, fee_answer: Result<Decimal, Error>|
                    fee.currency == commission.currency && fee.amount@ == rounded(commission.amount@)
                    && #[trigger] converter_answers(converter, source.conclusion_time.date, fee, local, fee_answer)
                    && match fee_answer {
                        Err(e) => r == Err::<FifoDetails, Error>(e),
                        Ok(y) => (r matches Ok(details) && fifo_copies(details, source)
                            && (details.source matches StockSourceDetails::Trade {
                                price: p, commission: c, local_commission: lc, cost: co, local_cost: lco }
                            && p == price && c == fee && co == cost
                            && lc.currency == local && lc.amount@ == rounded(y@)
                            && lco.currency == local && lco.amount@ == rounded(x@))),
                    },
            },
    }
}

/// `r` can be whether the exemption applies to a FIFO match of `stocks` stocks
/// whose purchase cost in the local currency is `local_cost`: whether its local
/// profit is positive, its part of the revenue converted at the execution date less
/// its part of the commission converted at the conclusion date (both rounded to
/// cents) and the cost; an overflow or the converter's first error is returned.
pub open spec fn exemption_outcome<V: CurrencyConverter>(
    converter: &V, sell: StockSell, stocks: (int, nat), local_cost: Cash, local: Currency, r: Result<bool, Error>,
) -> bool {
    sell.type_ matches StockSellType::Trade { price, commission, .. } && match decimal_checked_mul(price.amount@, stocks) {
        None => r == Err::<bool, Error>(Error::Overflow),
        Some(revenue_amount) => exists|revenue: Cash, revenue_answer: Result<Decimal, Error>|
            revenue.currency == price.currency && revenue.amount@ == revenue_amount
            && #[trigger] converter_answers(converter, sell.execution_date, revenue, local, revenue_answer)
            && match revenue_answer {
                Err(e) => r == Err::<bool, Error>(e),
                Ok(x) => match decimal_checked_mul(commission.amount@, stocks) {
                    None => r == Err::<bool, Error>(Error::Overflow),
                    Some(part) => match decimal_checked_div(part, sell.quantity@) {
                        None => r == Err::<bool, Error>(Error::Overflow),
                        Some(fee_amount) => exists|fee: Cash, fee_answer: Result<Decimal, Error>|
                            fee.currency == commission.currency && fee.amount@ == fee_amount
                            && #[trigger] converter_answers(converter, sell.conclusion_time.date, fee, local, fee_answer)
                            && match fee_answer {
                                Err(e) => r == Err::<bool, Error>(e),
                                Ok(y) => match decimal_checked_sub(rounded(x@), rounded(y@)) {
                                    None => r == Err::<bool, Error>(Error::Overflow),
                                    Some(profit) => match decimal_checked_sub(profit, local_cost.amount@) {
                                        None => r == Err::<bool, Error>(Error::Overflow),
                                        Some(local_profit) => r == Ok::<bool, Error>(local_profit.0 > 0),
                                    },
                                },
                            },
                    },
                },
            },
    }
}

/// `r` can be whether a tax exemption applies to a FIFO match: always where one is
/// forced, as `exemption_outcome` says where one may apply, else never.
pub open spec fn exemption_applied_outcome<V: CurrencyConverter>(
    converter: &V, sell: StockSell, stocks: (int, nat), local_cost: Cash, local: Currency,
    tax_exemptions: Seq<TaxExemption>, r: Result<bool, Error>,
) -> bool {
    if forced_exemption(tax_exemptions) {
        r == Ok::<bool, Error>(true)
    } else if possible_exemption(tax_exemptions) {
        exemption_outcome(converter, sell, stocks, local_cost, local, r)
    } else {
        r == Ok::<bool, Error>(false)
    }
}

/// The running totals of a sell calculation over its FIFO matches.
#[derive(Clone, Copy, Debug)]
pub struct SellTotals {
    /// The purchase cost in the currency of the sell.
    pub purchase_cost: Cash,
    /// The purchase cost in the local currency.
    pub purchase_local_cost: Cash,
    /// The local purchase cost of the matches that no exemption applies to.
    pub deductible_purchase_local_cost: Cash,
    /// The number of stocks.
    pub total_quantity: Decimal,
    /// The number of stocks that an exemption applies to.
    pub tax_free_quantity: Decimal,
}

/// The totals before any FIFO match: all zero.
pub open spec fn totals_start(totals: SellTotals, currency: Currency, local: Currency) -> bool {
    &&& totals.purchase_cost.currency == currency && totals.purchase_cost.amount@ == (0int, 0nat)
    &&& totals.purchase_local_cost.currency == local && totals.purchase_local_cost.amount@ == (0int, 0nat)
    &&& totals.deductible_purchase_local_cost.currency == local
        && totals.deductible_purchase_local_cost.amount@ == (0int, 0nat)
    &&& totals.total_quantity@ == (0int, 0nat)
    &&& totals.tax_free_quantity@ == (0int, 0nat)
}

/// A FIFO match of `stocks` stocks with the costs `cost` and `local_cost`, exempt
/// or not as `applied` says, added to the totals `before`: `r` is the totals after
/// it (or `Error::Overflow`), with the details `details` marked as `applied`.
pub open spec fn totals_step(
    before: SellTotals, stocks: (int, nat), cost: Cash, local_cost: Cash, applied: bool, details: FifoDetails,
    r: Result<(SellTotals, FifoDetails, Cash, Cash), Error>,
) -> bool {
    match decimal_checked_add(before.total_quantity@, stocks) {
        None => r == Err::<(SellTotals, FifoDetails, Cash, Cash), Error>(Error::Overflow),
        Some(total_quantity) => match if applied { decimal_checked_add(before.tax_free_quantity@, stocks) } else { Some(before.tax_free_quantity@) } {
            None => r == Err::<(SellTotals, FifoDetails, Cash, Cash), Error>(Error::Overflow),
            Some(tax_free) => match decimal_checked_add(before.purchase_cost.amount@, cost.amount@) {
                None => r == Err::<(SellTotals, FifoDetails, Cash, Cash), Error>(Error::Overflow),
                Some(purchase_cost) => match decimal_checked_add(before.purchase_local_cost.amount@, local_cost.amount@) {
                    None => r == Err::<(SellTotals, FifoDetails, Cash, Cash), Error>(Error::Overflow),
                    Some(purchase_local_cost) => match if !applied {
                        decimal_checked_add(before.deductible_purchase_local_cost.amount@, local_cost.amount@)
                    } else {
                        Some(before.deductible_purchase_local_cost.amount@)
                    } {
                        None => r == Err::<(SellTotals, FifoDetails, Cash, Cash), Error>(Error::Overflow),
                        Some(deductible) => (r matches Ok((after, added, c, lc))
                            && after.total_quantity@ == total_quantity && after.tax_free_quantity@ == tax_free
                            && after.purchase_cost.currency == before.purchase_cost.currency
                            && after.purchase_cost.amount@ == purchase_cost
                            && after.purchase_local_cost.currency == before.purchase_local_cost.currency
                            && after.purchase_local_cost.amount@ == purchase_local_cost
                            && after.deductible_purchase_local_cost.currency == before.deductible_purchase_local_cost.currency
                            && after.deductible_purchase_local_cost.amount@ == deductible
                            && added == (FifoDetails { tax_exemption_applied: applied, ..details })
                            && c == cost && lc == local_cost),
                    },
                },
            },
        },
    }
}

/// `r` can come of taking FIFO match `i` of the sell into the totals `before`: its
/// stocks, its details as `fifo_new_outcome` says, its costs in the currency of the
/// sell and in the local currency as `cost_in` says, whether an exemption applies
/// as `exemption_applied_outcome` says, then the totals as `totals_step` says; the
/// first overflow or error of the converter is returned.
pub open spec fn source_step<V: CurrencyConverter>(
    converter: &V, sell: StockSell, i: int, local: Currency, tax_exemptions: Seq<TaxExemption>,
    before: SellTotals, r: Result<(SellTotals, FifoDetails, Cash, Cash), Error>,
) -> bool {
    let source = sell.sources@[i];
    sell.type_ matches StockSellType::Trade { price, .. } && match decimal_checked_mul(source.quantity@, source.multiplier@) {
        None => r == Err::<(SellTotals, FifoDetails, Cash, Cash), Error>(Error::Overflow),
        Some(stocks) => exists|read: Result<FifoDetails, Error>| #[trigger] fifo_new_outcome(converter, source, local, read)
            && match read {
                Err(e) => r == Err::<(SellTotals, FifoDetails, Cash, Cash), Error>(e),
                Ok(details) => source_costs_step(converter, sell, price.currency, stocks, local, tax_exemptions,
                    before, details, r),
            },
    }
}

/// `r` can come of taking FIFO match of `stocks` stocks with the details `details`
/// into the totals `before`: its costs in `currency` (the sell's) and in the local
/// currency as `cost_in` says, whether an exemption applies as
/// `exemption_applied_outcome` says, then the totals as `totals_step` says.
pub open spec fn source_costs_step<V: CurrencyConverter>(
    converter: &V, sell: StockSell, currency: Currency, stocks: (int, nat), local: Currency,
    tax_exemptions: Seq<TaxExemption>, before: SellTotals, details: FifoDetails,
    r: Result<(SellTotals, FifoDetails, Cash, Cash), Error>,
) -> bool {
    exists|cost: Result<Cash, Error>| #[trigger] cost_in(converter, details.cost@, None, currency, cost)
        && match cost {
            Err(e) => r == Err::<(SellTotals, FifoDetails, Cash, Cash), Error>(e),
            Ok(c) => exists|local_cost: Result<Cash, Error>| #[trigger] cost_in(converter, details.cost@, None, local, local_cost)
                && match local_cost {
                    Err(e) => r == Err::<(SellTotals, FifoDetails, Cash, Cash), Error>(e),
                    Ok(lc) => exists|applied: Result<bool, Error>|
                        #[trigger] exemption_applied_outcome(converter, sell, stocks, lc, local, tax_exemptions, applied)
                        && match applied {
                            Err(e) => r == Err::<(SellTotals, FifoDetails, Cash, Cash), Error>(e),
                            Ok(app) => totals_step(before, stocks, c, lc, app, details, r),
                        },
                },
        }
}

/// `r` can be the real ratios of a sell calculation, from its profit and local
/// profit, its tax to pay and its purchase costs: the tax to pay converted into the
/// sell's currency at the execution date divided by the profit (none for no
/// profit); the profit less that tax rounded to cents divided by the purchase cost,
/// and the local profit less the tax divided by the local purchase cost (none for a
/// zero cost); an overflow or the converter's error is returned.
pub open spec fn sell_ratios<V: CurrencyConverter>(
    converter: &V, sell: StockSell, totals: SellTotals, profit_currency: Currency, profit: (int, nat),
    local_profit: Cash, tax_to_pay: Cash, r: Result<(Option<Decimal>, Option<Decimal>, Option<Decimal>), Error>,
) -> bool {
    let currency = totals.purchase_cost.currency;
    exists|tax_ratio: Result<Option<Decimal>, Error>| #[trigger] tax_ratio_outcome(converter, sell, profit_currency, profit, tax_to_pay, tax_ratio)
    && match tax_ratio {
        Err(e) => r == Err::<(Option<Decimal>, Option<Decimal>, Option<Decimal>), Error>(e),
        Ok(real_tax_ratio) => exists|tax_answer: Result<Decimal, Error>|
            #[trigger] converter_answers(converter, sell.execution_date, tax_to_pay, currency, tax_answer)
            && match tax_answer {
                Err(e) => r == Err::<(Option<Decimal>, Option<Decimal>, Option<Decimal>), Error>(e),
                Ok(w) => match decimal_checked_sub(profit, rounded(w@)) {
                    None => r == Err::<(Option<Decimal>, Option<Decimal>, Option<Decimal>), Error>(Error::Overflow),
                    Some(real_profit) => match if totals.purchase_cost.amount@.0 == 0 { Some(None) } else {
                        match decimal_checked_div(real_profit, totals.purchase_cost.amount@) {
                            Some(ratio) => Some(Some(ratio)),
                            None => None,
                        }
                    } {
                        None => r == Err::<(Option<Decimal>, Option<Decimal>, Option<Decimal>), Error>(Error::Overflow),
                        Some(real_profit_ratio) => match decimal_checked_sub(local_profit.amount@, tax_to_pay.amount@) {
                            None => r == Err::<(Option<Decimal>, Option<Decimal>, Option<Decimal>), Error>(Error::Overflow),
                            Some(real_local_profit) => match if totals.purchase_local_cost.amount@.0 == 0 { Some(None) } else {
                                match decimal_checked_div(real_local_profit, totals.purchase_local_cost.amount@) {
                                    Some(ratio) => Some(Some(ratio)),
                                    None => None,
                                }
                            } {
                                None => r == Err::<(Option<Decimal>, Option<Decimal>, Option<Decimal>), Error>(Error::Overflow),
                                Some(real_local_profit_ratio) => (r matches Ok((a, b, c)) && a == real_tax_ratio
                                    && option_view(b) == real_profit_ratio && option_view(c) == real_local_profit_ratio),
                            },
                        },
                    },
                },
            },
    }
}

/// `r` can be the real tax ratio: none for no profit, else the converter's answer
/// for the tax to pay in the profit's currency at the execution date divided by the
/// profit (its error, or `Error::Overflow`, returned).
pub open spec fn tax_ratio_outcome<V: CurrencyConverter>(
    converter: &V, sell: StockSell, profit_currency: Currency, profit: (int, nat), tax_to_pay: Cash,
    r: Result<Option<Decimal>, Error>,
) -> bool {
    if profit.0 == 0 {
        r == Ok::<Option<Decimal>, Error>(None)
    } else {
        exists|answer: Result<Decimal, Error>| #[trigger] converter_answers(converter, sell.execution_date, tax_to_pay, profit_currency, answer)
            && match answer {
                Err(e) => r == Err::<Option<Decimal>, Error>(e),
                Ok(tax) => match decimal_checked_div(tax@, profit) {
                    None => r == Err::<Option<Decimal>, Error>(Error::Overflow),
                    Some(ratio) => (r matches Ok(Some(d)) && d@ == ratio),
                },
            }
    }
}

/// `r` can be the results of a sell after its FIFO matches were taken into the
/// totals `totals` (their details `fifo`): the taxable share of the stocks (those
/// that no exemption applies to, over all of them); the revenue (the volume rounded
/// to cents) and that share of it, both converted at the execution date; then the
/// commissions as `sell_commissions` says. The first overflow or error of the
/// converter is returned.
pub open spec fn sell_final<C: Country, V: CurrencyConverter>(
    converter: &V, country: &C, tax_year: i32, sell: StockSell, local: Currency, totals: SellTotals,
    fifo: Seq<FifoDetails>, r: Result<SellDetails, Error>,
) -> bool {
    sell.type_ matches StockSellType::Trade { volume, .. }
    && match decimal_checked_sub(totals.total_quantity@, totals.tax_free_quantity@) {
        None => r == Err::<SellDetails, Error>(Error::Overflow),
        Some(taxable_quantity) => match decimal_checked_div(taxable_quantity, totals.total_quantity@) {
            None => r == Err::<SellDetails, Error>(Error::Overflow),
            Some(ratio) => exists|revenue: Cash, revenue_answer: Result<Decimal, Error>|
                revenue.currency == volume.currency && revenue.amount@ == rounded(volume.amount@)
                && #[trigger] converter_answers(converter, sell.execution_date, revenue, local, revenue_answer)
                && match revenue_answer {
                    Err(e) => r == Err::<SellDetails, Error>(e),
                    Ok(x) => match decimal_checked_mul(revenue.amount@, ratio) {
                        None => r == Err::<SellDetails, Error>(Error::Overflow),
                        Some(share) => exists|taxable_revenue: Cash, share_answer: Result<Decimal, Error>|
                            taxable_revenue.currency == revenue.currency && taxable_revenue.amount@ == share
                            && #[trigger] converter_answers(converter, sell.execution_date, taxable_revenue, local, share_answer)
                            && match share_answer {
                                Err(e) => r == Err::<SellDetails, Error>(e),
                                Ok(u) => sell_commissions(converter, country, tax_year, sell, local, totals, fifo, revenue,
                                    ratio, rounded(x@), rounded(u@), r),
                            },
                    },
                },
        },
    }
}

/// `r` can be the results of a sell from its revenue, the taxable share `ratio` of
/// its stocks, its local revenue and its taxable local revenue: the commission and
/// that share of it converted into the local currency, and the commission
/// converted into the sell's currency, all at the conclusion date; then the profits
/// as `sell_profits` says.
pub open spec fn sell_commissions<C: Country, V: CurrencyConverter>(
    converter: &V, country: &C, tax_year: i32, sell: StockSell, local: Currency, totals: SellTotals,
    fifo: Seq<FifoDetails>, revenue: Cash, ratio: (int, nat), local_revenue: (int, nat),
    taxable_local_revenue: (int, nat), r: Result<SellDetails, Error>,
) -> bool {
    sell.type_ matches StockSellType::Trade { price, commission, .. }
    && exists|commission_answer: Result<Decimal, Error>|
        #[trigger] converter_answers(converter, sell.conclusion_time.date, commission, local, commission_answer)
        && match commission_answer {
            Err(e) => r == Err::<SellDetails, Error>(e),
            Ok(y) => match decimal_checked_mul(commission.amount@, ratio) {
                None => r == Err::<SellDetails, Error>(Error::Overflow),
                Some(part) => exists|fee: Cash, fee_answer: Result<Decimal, Error>|
                    fee.currency == commission.currency && fee.amount@ == part
                    && #[trigger] converter_answers(converter, sell.conclusion_time.date, fee, local, fee_answer)
                    && match fee_answer {
                        Err(e) => r == Err::<SellDetails, Error>(e),
                        Ok(v) => exists|cost_answer: Result<Decimal, Error>|
                            #[trigger] converter_answers(converter, sell.conclusion_time.date, commission, price.currency, cost_answer)
                            && match cost_answer {
                                Err(e) => r == Err::<SellDetails, Error>(e),
                                Ok(z) => sell_profits(converter, country, tax_year, sell, local, totals, fifo, revenue,
                                    local_revenue, taxable_local_revenue, rounded(y@), rounded(v@), rounded(z@), r),
                            },
                    },
            },
        }
}

/// `r` can be the results of a sell from its revenue, its local revenue and taxable
/// local revenue, its local commission and deductible local commission and its
/// commission in the sell's currency: the total costs, the deductible local cost,
/// the profit, the local profit and the taxable local profit; the country's tax on
/// the local profit and on the taxable local profit, whose difference is the tax
/// deduction (below zero `Error::Inconsistency`); then the ratios as `sell_ratios`
/// says. The first overflow or error is returned.
pub open spec fn sell_profits<C: Country, V: CurrencyConverter>(
    converter: &V, country: &C, tax_year: i32, sell: StockSell, local: Currency, totals: SellTotals,
    fifo: Seq<FifoDetails>, revenue: Cash, local_revenue: (int, nat), taxable_local_revenue: (int, nat),
    local_commission: (int, nat), deductible_local_commission: (int, nat), commission_cost: (int, nat),
    r: Result<SellDetails, Error>,
) -> bool {
    match decimal_checked_add(totals.purchase_cost.amount@, commission_cost) {
        None => r == Err::<SellDetails, Error>(Error::Overflow),
        Some(total_cost) => match decimal_checked_add(totals.purchase_local_cost.amount@, local_commission) {
            None => r == Err::<SellDetails, Error>(Error::Overflow),
            Some(total_local_cost) => match decimal_checked_add(totals.deductible_purchase_local_cost.amount@,
                deductible_local_commission) {
                None => r == Err::<SellDetails, Error>(Error::Overflow),
                Some(deductible_total) => match decimal_checked_sub(revenue.amount@, total_cost) {
                    None => r == Err::<SellDetails, Error>(Error::Overflow),
                    Some(profit_amount) => match decimal_checked_sub(local_revenue, total_local_cost) {
                        None => r == Err::<SellDetails, Error>(Error::Overflow),
                        Some(local_profit_amount) => match decimal_checked_sub(taxable_local_revenue, deductible_total) {
                            None => r == Err::<SellDetails, Error>(Error::Overflow),
                            Some(taxable_amount) => exists|local_profit: Cash, tax: Decimal|
                                local_profit.currency == local && local_profit.amount@ == local_profit_amount
                                && #[trigger] call_ensures(C::tax_to_pay,
                                    (country, IncomeType::Trading, tax_year, local_profit.amount, None::<Decimal>), tax)
                                && exists|taxable: Cash, tax_to_pay: Cash|
                                    taxable.currency == local && taxable.amount@ == taxable_amount
                                    && tax_to_pay.currency == local
                                    && #[trigger] call_ensures(C::tax_to_pay,
                                        (country, IncomeType::Trading, tax_year, taxable.amount, None::<Decimal>), tax_to_pay.amount)
                                    && match decimal_checked_sub(tax@, tax_to_pay.amount@) {
                                        None => r == Err::<SellDetails, Error>(Error::Overflow),
                                        Some(deduction) => if deduction.0 < 0 {
                                            r == Err::<SellDetails, Error>(Error::Inconsistency)
                                        } else {
                                            exists|ratios: Result<(Option<Decimal>, Option<Decimal>, Option<Decimal>), Error>|
                                                #[trigger] sell_ratios(converter, sell, totals, revenue.currency, profit_amount,
                                                    local_profit, tax_to_pay, ratios)
                                                && match ratios {
                                                    Err(e) => r == Err::<SellDetails, Error>(e),
                                                    Ok((real_tax_ratio, real_profit_ratio, real_local_profit_ratio)) => (r matches Ok(details)
                                                        && details.revenue == revenue
                                                        && details.local_revenue.currency == local && details.local_revenue.amount@ == local_revenue
                                                        && details.local_commission.currency == local && details.local_commission.amount@ == local_commission
                                                        && details.purchase_local_cost == totals.purchase_local_cost
                                                        && details.total_local_cost.currency == local && details.total_local_cost.amount@ == total_local_cost
                                                        && details.profit.currency == revenue.currency && details.profit.amount@ == profit_amount
                                                        && details.local_profit == local_profit
                                                        && details.taxable_local_profit == taxable && details.tax_to_pay == tax_to_pay
                                                        && details.tax_deduction.currency == local && details.tax_deduction.amount@ == deduction
                                                        && details.real_tax_ratio == real_tax_ratio && details.real_profit_ratio == real_profit_ratio
                                                        && details.real_local_profit_ratio == real_local_profit_ratio
                                                        && details.fifo@ == fifo),
                                                }
                                        },
                                    },
                        },
                    },
                },
            },
        },
    }
}

/// `states` are the totals of a sell calculation after its first FIFO matches, from
/// zero, each match taken into them as `source_step` says, with its details in
/// `fifo` and its costs in `parts` and `local_parts`.
pub open spec fn calculation_trace<V: CurrencyConverter>(
    converter: &V, sell: StockSell, local: Currency, tax_exemptions: Seq<TaxExemption>,
    states: Seq<SellTotals>, fifo: Seq<FifoDetails>, parts: Seq<Cash>, local_parts: Seq<Cash>,
) -> bool {
    &&& 1 <= states.len() <= sell.sources@.len() + 1
    &&& sell.type_ matches StockSellType::Trade { price, .. } && totals_start(states[0], price.currency, local)
    &&& fifo.len() == states.len() - 1 && parts.len() == states.len() - 1 && local_parts.len() == states.len() - 1
    &&& forall|k: int| 0 <= k < states.len() - 1 ==> #[trigger] source_step(converter, sell, k, local, tax_exemptions,
        states[k], Ok::<(SellTotals, FifoDetails, Cash, Cash), Error>((states[k + 1], fifo[k], parts[k], local_parts[k])))
}

/// `r` can be the result of calculating a sell in the local currency `local`: each
/// FIFO match taken into the totals as `source_step` says, then the results as
/// `sell_final` says; the first overflow, inconsistency or error of the converter
/// is returned.
pub open spec fn sell_calculation<C: Country, V: CurrencyConverter>(
    converter: &V, country: &C, tax_year: i32, sell: StockSell, tax_exemptions: Seq<TaxExemption>,
    local: Currency, r: Result<SellDetails, Error>,
) -> bool {
    exists|states: Seq<SellTotals>, fifo: Seq<FifoDetails>, parts: Seq<Cash>, local_parts: Seq<Cash>|
        #[trigger] calculation_trace(converter, sell, local, tax_exemptions, states, fifo, parts, local_parts) && {
            ||| states.len() == sell.sources@.len() + 1 && sell_final(converter, country, tax_year, sell, local, states.last(), fifo, r)
            ||| states.len() <= sell.sources@.len() && (r matches Err(e) && source_step(converter, sell, states.len() - 1, local,
                tax_exemptions, states.last(), Err::<(SellTotals, FifoDetails, Cash, Cash), Error>(e)))
        }
}

/// The currency converter answers zero for an amount of zero.
pub open spec fn converts_zero_to_zero<V: CurrencyConverter>(converter: &V) -> bool {
    forall|date: Date, amount: Cash, to: Currency, answer: Result<Decimal, Error>|
        amount.amount@.0 == 0 && #[trigger] converter_answers(converter, date, amount, to, answer)
        ==> (answer matches Ok(z) && z@.0 == 0)
}

/// A zero amount converted and rounded to cents by a converter that answers zero
/// for zero is zero with no fraction.
proof fn lemma_zero_conversion<V: CurrencyConverter>(
    converter: &V, date: Date, amount: Cash, to: Currency, r: Result<Cash, Error>,
)
    requires
        converts_zero_to_zero(converter),
        amount.amount@.0 == 0,
        exists|answer: Result<Decimal, Error>| #[trigger] converter_answers(converter, date, amount, to, answer)
            && cash_conversion_of(answer, to, r),
    ensures
        r matches Ok(c) && c.amount@ == (0int, 0nat),
{
    let answer = choose|answer: Result<Decimal, Error>| #[trigger] converter_answers(converter, date, amount, to, answer)
        && cash_conversion_of(answer, to, r);
    crate::cash::lemma_rounded_zero(answer->Ok_0@);
}

/// `r` is what calculating `sell` for the taxes of `country` can give: the result
/// that `sell_calculation` allows in the country's currency, an error wrapped into
/// `Error::SellCalculation` with the symbol and the conclusion date of the sell.
pub open spec fn sell_calculated<C: Country, V: CurrencyConverter>(
    converter: &V, country: &C, tax_year: i32, sell: StockSell, tax_exemptions: Seq<TaxExemption>,
    r: Result<SellDetails, Error>,
) -> bool {
    exists|local: Currency, inner: Result<SellDetails, Error>|
        #![trigger sell_calculation(converter, country, tax_year, sell, tax_exemptions, local, inner)]
        call_ensures(C::currency, (country,), local)
        && sell_calculation(converter, country, tax_year, sell, tax_exemptions, local, inner)
        && match inner {
            Ok(details) => r == Ok::<SellDetails, Error>(details),
            Err(e) => (r matches Err(Error::SellCalculation { symbol, date, cause }) && symbol@ == sell.symbol@
                && date == sell.conclusion_time.date && *cause == e),
        }
}

/// A FIFO match of `stocks` stocks with the costs `cost` and `local_cost` and the
/// details `details`, exempt or not as `applied` says, added to the totals `before`.
fn add_to_totals(
    before: SellTotals, stocks: Decimal, cost: Cash, local_cost: Cash, applied: bool, details: FifoDetails,
) -> (r: Result<(SellTotals, FifoDetails, Cash, Cash), Error>)
    requires
        before.purchase_cost.currency == cost.currency,
        before.purchase_local_cost.currency == local_cost.currency,
        before.deductible_purchase_local_cost.currency == local_cost.currency,
    ensures
        totals_step(before, stocks@, cost, local_cost, applied, details, r),
        r matches Err(e) ==> e == Error::Overflow,
{
    let total_quantity = match before.total_quantity.checked_add(stocks) {
        Some(total) => total,
        None => return Err(Error::Overflow),
    };
    let tax_free_quantity = if applied {
        match before.tax_free_quantity.checked_add(stocks) {
            Some(total) => total,
            None => return Err(Error::Overflow),
        }
    } else {
        before.tax_free_quantity
    };
    let purchase_cost = match before.purchase_cost.add(cost) {
        Ok(total) => total,
        Err(e) => return Err(e),
    };
    let purchase_local_cost = match before.purchase_local_cost.add(local_cost) {
        Ok(total) => total,
        Err(e) => return Err(e),
    };
    let deductible_purchase_local_cost = if !applied {
        match before.deductible_purchase_local_cost.add(local_cost) {
            Ok(total) => total,
            Err(e) => return Err(e),
        }
    } else {
        before.deductible_purchase_local_cost
    };
    let after = SellTotals {
        purchase_cost,
        purchase_local_cost,
        deductible_purchase_local_cost,
        total_quantity,
        tax_free_quantity,
    };
    Ok((after, FifoDetails { tax_exemption_applied: applied, ..details }, cost, local_cost))
}

/// `source_step` from the answers of its parts: the FIFO details `details`, the
/// costs `cost` and `local_cost`, whether an exemption applies, and the totals.
#[verifier::spinoff_prover]
proof fn lemma_source_step<V: CurrencyConverter>(
    converter: &V, sell: StockSell, i: int, local: Currency, tax_exemptions: Seq<TaxExemption>, before: SellTotals,
    stocks: (int, nat), details: FifoDetails, cost: Cash, local_cost: Cash, applied: Result<bool, Error>,
    r: Result<(SellTotals, FifoDetails, Cash, Cash), Error>,
)
    requires
        0 <= i < sell.sources@.len(),
        sell.type_ matches StockSellType::Trade { price, .. } && cost_in(converter, details.cost@, None, price.currency, Ok::<Cash, Error>(cost)),
        decimal_checked_mul(sell.sources@[i].quantity@, sell.sources@[i].multiplier@) == Some(stocks),
        fifo_new_outcome(converter, sell.sources@[i], local, Ok::<FifoDetails, Error>(details)),
        cost_in(converter, details.cost@, None, local, Ok::<Cash, Error>(local_cost)),
        exemption_applied_outcome(converter, sell, stocks, local_cost, local, tax_exemptions, applied),
        match applied {
            Err(e) => r == Err::<(SellTotals, FifoDetails, Cash, Cash), Error>(e),
            Ok(app) => totals_step(before, stocks, cost, local_cost, app, details, r),
        },
    ensures
        source_step(converter, sell, i, local, tax_exemptions, before, r),
{
    let price = sell.type_->Trade_price;
    let source = sell.sources@[i];
    assert(exists|a: Result<bool, Error>| #[trigger] exemption_applied_outcome(converter, sell, stocks, local_cost, local, tax_exemptions, a)
        && match a {
            Err(e) => r == Err::<(SellTotals, FifoDetails, Cash, Cash), Error>(e),
            Ok(app) => totals_step(before, stocks, cost, local_cost, app, details, r),
        });
    assert(exists|lc: Result<Cash, Error>| #[trigger] cost_in(converter, details.cost@, None, local, lc)
        && match lc {
            Err(e) => r == Err::<(SellTotals, FifoDetails, Cash, Cash), Error>(e),
            Ok(lc) => exists|a: Result<bool, Error>| #[trigger] exemption_applied_outcome(converter, sell, stocks, lc, local, tax_exemptions, a)
                && match a {
                    Err(e) => r == Err::<(SellTotals, FifoDetails, Cash, Cash), Error>(e),
                    Ok(app) => totals_step(before, stocks, cost, lc, app, details, r),
                },
        });
    assert(source_costs_step(converter, sell, price.currency, stocks, local, tax_exemptions, before, details, r));
    let read = Ok::<FifoDetails, Error>(details);
    assert(fifo_new_outcome(converter, source, local, read));
}

impl StockSell {
    /// The results of the sell for the taxes of `country` in `tax_year`. Errors of the
    /// currency converter are passed on; an overflow of a decimal gives
    /// `Error::Overflow`, and tax rules that tax the whole profit less than its
    /// taxable part give `Error::Inconsistency`. Either of them is wrapped into
    /// `Error::SellCalculation` with the symbol and the conclusion date of the sell.
    /// With an exemption forced and a converter that answers zero for zero, no part
    /// of the local profit is taxable.
    pub fn calculate<C: Country, V: CurrencyConverter>(
        &self, country: &C, tax_year: i32, tax_exemptions: &[TaxExemption], converter: &V,
    ) -> (r: Result<SellDetails, Error>)
        requires
            calculable(*self),
        ensures
            r matches Ok(details) ==> sell_details_describe(details, *self, tax_exemptions@),
            sell_calculated(converter, country, tax_year, *self, tax_exemptions@, r),
            forced_exemption(tax_exemptions@) && converts_zero_to_zero(converter)
                ==> (r matches Ok(details) ==> details.taxable_local_profit.amount@ == (0int, 0nat)),
    {
        let inner = self.calculate_impl(country, tax_year, tax_exemptions, converter);
        let ghost answer = inner;
        let r = match inner {
            Ok(details) => Ok(details),
            Err(e) => Err(Error::SellCalculation {
                symbol: self.symbol.clone(),
                date: self.conclusion_time.date,
                cause: Box::new(e),
            }),
        };
        proof {
            let local = choose|local: Currency| #[trigger] call_ensures(C::currency, (country,), local)
                && sell_calculation(converter, country, tax_year, *self, tax_exemptions@, local, answer);
            assert(sell_calculation(converter, country, tax_year, *self, tax_exemptions@, local, answer));
        }
        r
    }

    /// `calculate` where the sell can be calculated; else `Error::Inconsistency`.
    pub fn try_calculate<C: Country, V: CurrencyConverter>(
        &self, country: &C, tax_year: i32, tax_exemptions: &[TaxExemption], converter: &V,
    ) -> (r: Result<SellDetails, Error>)
        ensures
            !calculable(*self) ==> r == Err::<SellDetails, Error>(Error::Inconsistency),
            calculable(*self) ==> sell_calculated(converter, country, tax_year, *self, tax_exemptions@, r),
            r matches Ok(details) ==> sell_details_describe(details, *self, tax_exemptions@),
            forced_exemption(tax_exemptions@) && converts_zero_to_zero(converter)
                ==> (r matches Ok(details) ==> details.taxable_local_profit.amount@ == (0int, 0nat)),
    {
        let consistent = match self.type_ {
            StockSellType::Trade { price, volume, commission: _ } => price.currency == volume.currency,
            StockSellType::CorporateAction => false,
        };
        if !consistent || self.quantity.is_zero() {
            return Err(Error::Inconsistency);
        }
        match total_quantity(&self.sources) {
            Some(total) => {
                if !total.equals(&self.quantity) {
                    return Err(Error::Inconsistency);
                }
            },
            None => return Err(Error::Inconsistency),
        }
        self.calculate(country, tax_year, tax_exemptions, converter)
    }

    /// Whether a tax exemption applies to a FIFO match of `stocks` stocks whose
    /// purchase cost in the local currency is `local_cost`.
    fn exemption_applies<V: CurrencyConverter>(
        &self, stocks: Decimal, local_cost: Cash, local: Currency, tax_exemptions: &[TaxExemption], converter: &V,
    ) -> (r: Result<bool, Error>)
        requires
            calculable(*self),
            local_cost.currency == local,
        ensures
            exemption_applied_outcome(converter, *self, stocks@, local_cost, local, tax_exemptions@, r),
    {
        let (price, commission) = match self.type_ {
            StockSellType::Trade { price, commission, .. } => (price, commission),
            StockSellType::CorporateAction => return Err(Error::Inconsistency),
        };
        let (exemptible, forced) = exemption_applicability(tax_exemptions);
        if forced {
            return Ok(true);
        }
        if !exemptible {
            return Ok(false);
        }
        let revenue = match price.mul(stocks) {
            Some(revenue) => revenue,
            None => return Err(Error::Overflow),
        };
        let local_revenue = convert_to_cash_rounding(converter, self.execution_date, revenue, local);
        let ghost revenue_read = local_revenue;
        let local_revenue = match local_revenue {
            Ok(c) => c,
            Err(e) => return Err(e),
        };
        let part = match commission.mul(stocks) {
            Some(part) => part,
            None => return Err(Error::Overflow),
        };
        let fee = match part.div_by(self.quantity) {
            Some(fee) => fee,
            None => return Err(Error::Overflow),
        };
        let local_fee = convert_to_cash_rounding(converter, self.conclusion_time.date, fee, local);
        let ghost fee_read = local_fee;
        let local_fee = match local_fee {
            Ok(c) => c,
            Err(e) => return Err(e),
        };
        let profit = match local_revenue.sub(local_fee) {
            Ok(profit) => profit,
            Err(e) => return Err(e),
        };
        let local_profit = match profit.sub(local_cost) {
            Ok(profit) => profit,
            Err(e) => return Err(e),
        };
        Ok(local_profit.is_positive())
    }

    /// FIFO match `i` taken into the totals `before`.
    fn take_source<V: CurrencyConverter>(
        &self, i: usize, local: Currency, tax_exemptions: &[TaxExemption], converter: &V, before: SellTotals,
    ) -> (r: Result<(SellTotals, FifoDetails, Cash, Cash), Error>)
        requires
            calculable(*self),
            i < self.sources@.len(),
            self.type_ matches StockSellType::Trade { price, .. } && before.purchase_cost.currency == price.currency,
            before.purchase_local_cost.currency == local,
            before.deductible_purchase_local_cost.currency == local,
        ensures
            source_step(converter, *self, i as int, local, tax_exemptions@, before, r),
            forced_exemption(tax_exemptions@) && before.tax_free_quantity@ == before.total_quantity@
                && before.deductible_purchase_local_cost.amount@ == (0int, 0nat)
                ==> (r matches Ok((after, _, _, _)) ==> after.tax_free_quantity@ == after.total_quantity@
                    && after.deductible_purchase_local_cost.amount@ == (0int, 0nat)),
            r matches Ok((after, details, cost, local_cost)) ==> {
                &&& fifo_describes(details, self.sources@[i as int], local)
                &&& forced_exemption(tax_exemptions@) ==> details.tax_exemption_applied
                &&& !forced_exemption(tax_exemptions@) && !possible_exemption(tax_exemptions@) ==> !details.tax_exemption_applied
            },
    {
        let currency = before.purchase_cost.currency;
        let source = &self.sources[i];
        let stocks = match source.quantity.checked_mul(source.multiplier) {
            Some(stocks) => stocks,
            None => return Err(Error::Overflow),
        };
        let read = FifoDetails::new(source, local, converter);
        let mut details = match read {
            Ok(details) => details,
            Err(e) => return Err(e),
        };
        let cost = details.total_cost(currency, converter);
        let cost = match cost {
            Ok(cost) => cost,
            Err(e) => return Err(e),
        };
        let local_cost = details.total_cost(local, converter);
        let local_cost = match local_cost {
            Ok(cost) => cost,
            Err(e) => return Err(e),
        };
        let applied = self.exemption_applies(stocks, local_cost, local, tax_exemptions, converter);
        let r = match applied {
            Ok(applied) => add_to_totals(before, stocks, cost, local_cost, applied, details),
            Err(e) => Err(e),
        };
        proof {
            assert(read == Ok::<FifoDetails, Error>(details));
            lemma_source_step(converter, *self, i as int, local, tax_exemptions@, before, stocks@, details, cost,
                local_cost, applied, r);
            if r is Ok {
                let b = applied->Ok_0;
                let added = r->Ok_0.1;
                assert(added == (FifoDetails { tax_exemption_applied: b, ..details }));
                assert(fifo_describes(added, *source, local));
            }
        }
        r
    }

    /// The results of the sell once its FIFO matches were taken into the totals
    /// `totals` (their details `fifo`).
    fn finish<C: Country, V: CurrencyConverter>(
        &self, country: &C, tax_year: i32, local: Currency, totals: SellTotals, fifo: Vec<FifoDetails>, converter: &V,
    ) -> (r: Result<SellDetails, Error>)
        requires
            calculable(*self),
            self.type_ matches StockSellType::Trade { price, .. } && totals.purchase_cost.currency == price.currency,
            totals.purchase_local_cost.currency == local,
            totals.deductible_purchase_local_cost.currency == local,
        ensures
            sell_final(converter, country, tax_year, *self, local, totals, fifo@, r),
            converts_zero_to_zero(converter) && totals.tax_free_quantity@ == totals.total_quantity@
                && totals.deductible_purchase_local_cost.amount@ == (0int, 0nat)
                ==> (r matches Ok(details) ==> details.taxable_local_profit.amount@ == (0int, 0nat)),
            r matches Ok(details) ==> {
                &&& details.fifo@ == fifo@
                &&& details.local_revenue.currency == local
                &&& self.type_ matches StockSellType::Trade { price, volume, .. }
                    && details.revenue.currency == volume.currency && details.revenue.amount@ == rounded(volume.amount@)
                    && details.profit.currency == price.currency
                &&& details.local_commission.currency == local
                &&& details.purchase_local_cost == totals.purchase_local_cost
                &&& details.total_local_cost.currency == local
                &&& details.local_profit.currency == local
                &&& details.taxable_local_profit.currency == local
                &&& details.tax_to_pay.currency == local
                &&& details.tax_deduction.currency == local
                &&& cash_sum(details.purchase_local_cost, details.local_commission) == Ok::<(int, nat), Error>(details.total_local_cost.amount@)
                &&& cash_difference(details.local_revenue, details.total_local_cost) == Ok::<(int, nat), Error>(details.local_profit.amount@)
                &&& details.tax_deduction.amount@.0 >= 0
                &&& (details.real_tax_ratio is None <==> details.profit.amount@.0 == 0)
                &&& (details.real_local_profit_ratio is None <==> details.purchase_local_cost.amount@.0 == 0)
                &&& details.real_local_profit_ratio matches Some(ratio) ==> (
                    cash_difference(details.local_profit, details.tax_to_pay) matches Ok(real_profit)
                    && decimal_checked_div(real_profit, details.purchase_local_cost.amount@) == Some(ratio@))
            },
    {
        let (price, volume, commission) = match self.type_ {
            StockSellType::Trade { price, volume, commission } => (price, volume, commission),
            StockSellType::CorporateAction => return Err(Error::Inconsistency),
        };
        let currency = price.currency;
        let taxable_quantity = match totals.total_quantity.checked_sub(totals.tax_free_quantity) {
            Some(q) => q,
            None => return Err(Error::Overflow),
        };
        let ratio = match taxable_quantity.checked_div(totals.total_quantity) {
            Some(q) => q,
            None => return Err(Error::Overflow),
        };
        let revenue = volume.round();
        let local_revenue = match convert_to_cash_rounding(converter, self.execution_date, revenue, local) {
            Ok(c) => c,
            Err(e) => return Err(e),
        };
        let taxable_revenue = match revenue.mul(ratio) {
            Some(c) => c,
            None => return Err(Error::Overflow),
        };
        let converted = convert_to_cash_rounding(converter, self.execution_date, taxable_revenue, local);
        let ghost revenue_read = converted;
        let taxable_local_revenue = match converted {
            Ok(c) => c,
            Err(e) => return Err(e),
        };
        let local_commission = match convert_to_cash_rounding(converter, self.conclusion_time.date, commission, local) {
            Ok(c) => c,
            Err(e) => return Err(e),
        };
        let deductible_commission = match commission.mul(ratio) {
            Some(c) => c,
            None => return Err(Error::Overflow),
        };
        let converted = convert_to_cash_rounding(converter, self.conclusion_time.date, deductible_commission, local);
        let ghost fee_read = converted;
        let deductible_local_commission = match converted {
            Ok(c) => c,
            Err(e) => return Err(e),
        };
        let commission_cost = match convert_to_cash_rounding(converter, self.conclusion_time.date, commission, currency) {
            Ok(c) => c,
            Err(e) => return Err(e),
        };
        proof {
            if converts_zero_to_zero(converter) && totals.tax_free_quantity@ == totals.total_quantity@ {
                lemma_zero_conversion(converter, self.execution_date, taxable_revenue, local, revenue_read);
                lemma_zero_conversion(converter, self.conclusion_time.date, deductible_commission, local, fee_read);
            }
        }
        self.profits_of(country, tax_year, local, totals, fifo, revenue, local_revenue, taxable_local_revenue,
            local_commission, deductible_local_commission, commission_cost, converter)
    }

    /// The results of the sell from its totals, its revenue, its local revenue and
    /// taxable local revenue, its local commission and deductible local commission
    /// and its commission in the sell's currency.
    fn profits_of<C: Country, V: CurrencyConverter>(
        &self, country: &C, tax_year: i32, local: Currency, totals: SellTotals, fifo: Vec<FifoDetails>,
        revenue: Cash, local_revenue: Cash, taxable_local_revenue: Cash, local_commission: Cash,
        deductible_local_commission: Cash, commission_cost: Cash, converter: &V,
    ) -> (r: Result<SellDetails, Error>)
        requires
            self.type_ matches StockSellType::Trade { price, volume, .. } && totals.purchase_cost.currency == price.currency
                && commission_cost.currency == price.currency
                && revenue.currency == volume.currency && revenue.amount@ == rounded(volume.amount@)
                && price.currency == volume.currency,
            totals.purchase_local_cost.currency == local,
            totals.deductible_purchase_local_cost.currency == local,
            local_revenue.currency == local,
            taxable_local_revenue.currency == local,
            local_commission.currency == local,
            deductible_local_commission.currency == local,
        ensures
            sell_profits(converter, country, tax_year, *self, local, totals, fifo@, revenue, local_revenue.amount@,
                taxable_local_revenue.amount@, local_commission.amount@, deductible_local_commission.amount@,
                commission_cost.amount@, r),
            taxable_local_revenue.amount@ == (0int, 0nat) && deductible_local_commission.amount@ == (0int, 0nat)
                && totals.deductible_purchase_local_cost.amount@ == (0int, 0nat)
                ==> (r matches Ok(details) ==> details.taxable_local_profit.amount@ == (0int, 0nat)),
            r matches Ok(details) ==> {
                &&& details.fifo@ == fifo@
                &&& details.local_revenue.currency == local
                &&& self.type_ matches StockSellType::Trade { price, volume, .. }
                    && details.revenue.currency == volume.currency && details.revenue.amount@ == rounded(volume.amount@)
                    && details.profit.currency == price.currency
                &&& details.local_commission.currency == local
                &&& details.purchase_local_cost == totals.purchase_local_cost
                &&& details.total_local_cost.currency == local
                &&& details.local_profit.currency == local
                &&& details.taxable_local_profit.currency == local
                &&& details.tax_to_pay.currency == local
                &&& details.tax_deduction.currency == local
                &&& cash_sum(details.purchase_local_cost, details.local_commission) == Ok::<(int, nat), Error>(details.total_local_cost.amount@)
                &&& cash_difference(details.local_revenue, details.total_local_cost) == Ok::<(int, nat), Error>(details.local_profit.amount@)
                &&& details.tax_deduction.amount@.0 >= 0
                &&& (details.real_tax_ratio is None <==> details.profit.amount@.0 == 0)
                &&& (details.real_local_profit_ratio is None <==> details.purchase_local_cost.amount@.0 == 0)
                &&& details.real_local_profit_ratio matches Some(ratio) ==> (
                    cash_difference(details.local_profit, details.tax_to_pay) matches Ok(real_profit)
                    && decimal_checked_div(real_profit, details.purchase_local_cost.amount@) == Some(ratio@))
            },
    {
        let total_cost = match totals.purchase_cost.add(commission_cost) {
            Ok(c) => c,
            Err(e) => return Err(e),
        };
        let total_local_cost = match totals.purchase_local_cost.add(local_commission) {
            Ok(c) => c,
            Err(e) => return Err(e),
        };
        let deductible_total_local_cost = match totals.deductible_purchase_local_cost.add(deductible_local_commission) {
            Ok(c) => c,
            Err(e) => return Err(e),
        };
        let profit = match revenue.sub(total_cost) {
            Ok(c) => c,
            Err(e) => return Err(e),
        };
        let local_profit = match local_revenue.sub(total_local_cost) {
            Ok(c) => c,
            Err(e) => return Err(e),
        };
        let taxable_local_profit = match taxable_local_revenue.sub(deductible_total_local_cost) {
            Ok(c) => c,
            Err(e) => return Err(e),
        };
        let tax = country.tax_to_pay(IncomeType::Trading, tax_year, local_profit.amount, None);
        assert(call_ensures(C::tax_to_pay, (country, IncomeType::Trading, tax_year, local_profit.amount, None::<Decimal>), tax));
        let taxed = country.tax_to_pay(IncomeType::Trading, tax_year, taxable_local_profit.amount, None);
        let tax_to_pay = Cash::new(local, taxed);
        assert(call_ensures(C::tax_to_pay, (country, IncomeType::Trading, tax_year, taxable_local_profit.amount, None::<Decimal>),
            tax_to_pay.amount));
        let tax_deduction = match Cash::new(local, tax).sub(tax_to_pay) {
            Ok(c) => c,
            Err(e) => return Err(e),
        };
        if tax_deduction.is_negative() {
            return Err(Error::Inconsistency);
        }
        let ratios = self.ratios_of(totals, profit, local_profit, tax_to_pay, converter);
        let (real_tax_ratio, real_profit_ratio, real_local_profit_ratio) = match ratios {
            Ok(t) => t,
            Err(e) => return Err(e),
        };
        Ok(SellDetails {
            revenue,
            local_revenue,
            local_commission,

            purchase_local_cost: totals.purchase_local_cost,
            total_local_cost,

            profit,
            local_profit,
            taxable_local_profit,

            tax_to_pay,
            tax_deduction,

            real_tax_ratio,
            real_profit_ratio,
            real_local_profit_ratio,

            fifo,
        })
    }

    /// The real tax ratio, the real profit ratio and the real local profit ratio of
    /// the sell from its totals, its profit and local profit and its tax to pay.
    fn ratios_of<V: CurrencyConverter>(
        &self, totals: SellTotals, profit: Cash, local_profit: Cash, tax_to_pay: Cash, converter: &V,
    ) -> (r: Result<(Option<Decimal>, Option<Decimal>, Option<Decimal>), Error>)
        requires
            profit.currency == totals.purchase_cost.currency,
            local_profit.currency == totals.purchase_local_cost.currency,
            tax_to_pay.currency == local_profit.currency,
        ensures
            sell_ratios(converter, *self, totals, profit.currency, profit.amount@, local_profit, tax_to_pay, r),
            r matches Ok((a, b, c)) ==> {
                &&& (a is None <==> profit.amount@.0 == 0)
                &&& (c is None <==> totals.purchase_local_cost.amount@.0 == 0)
                &&& c matches Some(ratio) ==> (cash_difference(local_profit, tax_to_pay) matches Ok(real_profit)
                    && decimal_checked_div(real_profit, totals.purchase_local_cost.amount@) == Some(ratio@))
            },
    {
        let currency = totals.purchase_cost.currency;
        let real_tax_ratio = if profit.is_zero() {
            None
        } else {
            let tax = converter.convert_to(self.execution_date, tax_to_pay, profit.currency);
            assert(converter_answers(converter, self.execution_date, tax_to_pay, profit.currency, tax));
            let tax = match tax {
                Ok(t) => t,
                Err(e) => {
                    assert(tax_ratio_outcome(converter, *self, profit.currency, profit.amount@, tax_to_pay,
                        Err::<Option<Decimal>, Error>(e)));
                    return Err(e);
                },
            };
            match tax.checked_div(profit.amount) {
                Some(ratio) => Some(ratio),
                None => {
                    assert(tax_ratio_outcome(converter, *self, profit.currency, profit.amount@, tax_to_pay,
                        Err::<Option<Decimal>, Error>(Error::Overflow)));
                    return Err(Error::Overflow);
                },
            }
        };
        assert(tax_ratio_outcome(converter, *self, profit.currency, profit.amount@, tax_to_pay,
            Ok::<Option<Decimal>, Error>(real_tax_ratio)));
        let tax_cost = match convert_to_cash_rounding(converter, self.execution_date, tax_to_pay, currency) {
            Ok(c) => c,
            Err(e) => return Err(e),
        };
        let real_profit = match profit.sub(tax_cost) {
            Ok(c) => c,
            Err(e) => return Err(e),
        };
        let real_profit_ratio = if totals.purchase_cost.is_zero() {
            None
        } else {
            match real_profit.div(totals.purchase_cost) {
                Ok(ratio) => Some(ratio),
                Err(e) => return Err(e),
            }
        };
        let real_local_profit = match local_profit.sub(tax_to_pay) {
            Ok(c) => c,
            Err(e) => return Err(e),
        };
        let real_local_profit_ratio = if totals.purchase_local_cost.is_zero() {
            None
        } else {
            match real_local_profit.div(totals.purchase_local_cost) {
                Ok(ratio) => Some(ratio),
                Err(e) => return Err(e),
            }
        };
        Ok((real_tax_ratio, real_profit_ratio, real_local_profit_ratio))
    }

    /// The results of the sell in the country's currency: its FIFO matches taken
    /// into the totals one by one, then the results; the error is not wrapped.
    fn calculate_impl<C: Country, V: CurrencyConverter>(
        &self, country: &C, tax_year: i32, tax_exemptions: &[TaxExemption], converter: &V,
    ) -> (r: Result<SellDetails, Error>)
        requires
            calculable(*self),
        ensures
            r matches Ok(details) ==> sell_details_describe(details, *self, tax_exemptions@),
            exists|local: Currency| #[trigger] call_ensures(C::currency, (country,), local)
                && sell_calculation(converter, country, tax_year, *self, tax_exemptions@, local, r),
            forced_exemption(tax_exemptions@) && converts_zero_to_zero(converter)
                ==> (r matches Ok(details) ==> details.taxable_local_profit.amount@ == (0int, 0nat)),
    {
        let (price, volume, commission) = match self.type_ {
            StockSellType::Trade { price, volume, commission } => (price, volume, commission),
            StockSellType::CorporateAction => return Err(Error::Inconsistency),
        };
        let currency = price.currency;
        let local = country.currency();
        assert(call_ensures(C::currency, (country,), local));

        let mut totals = SellTotals {
            purchase_cost: Cash::zero(currency),
            purchase_local_cost: Cash::zero(local),
            deductible_purchase_local_cost: Cash::zero(local),
            total_quantity: Decimal::zero(),
            tax_free_quantity: Decimal::zero(),
        };
        let mut fifo: Vec<FifoDetails> = Vec::new();
        let ghost sources = self.sources@;
        let ghost mut cost_parts: Seq<Cash> = Seq::empty();
        let ghost mut local_cost_parts: Seq<Cash> = Seq::empty();
        let ghost mut states: Seq<SellTotals> = seq![totals];

        for i in 0..self.sources.len()
            invariant
                sources == self.sources@,
                calculable(*self),
                self.type_ == (StockSellType::Trade { price, volume, commission }),
                currency == price.currency,
                fifo@.len() == i,
                forall|j: int| 0 <= j < i ==> fifo_describes(#[trigger] fifo@[j], sources[j], local),
                forall|j: int| 0 <= j < i && forced_exemption(tax_exemptions@) ==> (#[trigger] fifo@[j]).tax_exemption_applied,
                forall|j: int| 0 <= j < i && !forced_exemption(tax_exemptions@) && !possible_exemption(tax_exemptions@)
                    ==> !(#[trigger] fifo@[j]).tax_exemption_applied,
                totals.purchase_cost.currency == currency,
                totals.purchase_local_cost.currency == local,
                totals.deductible_purchase_local_cost.currency == local,
                call_ensures(C::currency, (country,), local),
                states.len() == i + 1,
                states.last() == totals,
                forced_exemption(tax_exemptions@) ==> totals.tax_free_quantity@ == totals.total_quantity@
                    && totals.deductible_purchase_local_cost.amount@ == (0int, 0nat),
                calculation_trace(converter, *self, local, tax_exemptions@, states, fifo@, cost_parts, local_cost_parts),
        {
            let step = self.take_source(i, local, tax_exemptions, converter, totals);
            let (after, details, cost, local_cost) = match step {
                Ok(t) => t,
                Err(e) => {
                    proof {
                        assert(calculation_trace(converter, *self, local, tax_exemptions@, states, fifo@, cost_parts,
                            local_cost_parts));
                        assert(sell_calculation(converter, country, tax_year, *self, tax_exemptions@, local,
                            Err::<SellDetails, Error>(e)));
                    }
                    return Err(e);
                },
            };
            let ghost old_fifo = fifo@;
            let ghost old_states = states;
            let ghost old_parts = cost_parts;
            let ghost old_local_parts = local_cost_parts;
            fifo.push(details);
            totals = after;
            proof {
                states = states.push(after);
                cost_parts = cost_parts.push(cost);
                local_cost_parts = local_cost_parts.push(local_cost);
                assert forall|k: int| 0 <= k < states.len() - 1 implies #[trigger] source_step(converter, *self, k, local,
                    tax_exemptions@, states[k], Ok::<(SellTotals, FifoDetails, Cash, Cash), Error>(
                    (states[k + 1], fifo@[k], cost_parts[k], local_cost_parts[k]))) by {
                    if k < i {
                        assert(states[k] == old_states[k] && states[k + 1] == old_states[k + 1]);
                        assert(fifo@[k] == old_fifo[k] && cost_parts[k] == old_parts[k]
                            && local_cost_parts[k] == old_local_parts[k]);
                    }
                }
                assert forall|j: int| 0 <= j < i + 1 implies fifo_describes(#[trigger] fifo@[j], sources[j], local) by {
                    if j < i {
                        assert(fifo@[j] == old_fifo[j]);
                    }
                }
            }
        }

        let ghost fifo_seq = fifo@;
        let r = self.finish(country, tax_year, local, totals, fifo, converter);
        proof {
            assert(calculation_trace(converter, *self, local, tax_exemptions@, states, fifo_seq, cost_parts,
                local_cost_parts));
            assert(sell_calculation(converter, country, tax_year, *self, tax_exemptions@, local, r));
        }
        r
    }
}

/// The real ratios of a sell are taken after tax:
/// - the real tax ratio is the tax to pay, converted into the profit's currency at
///   the execution date, divided by the profit; there is none for no profit;
/// - where the purchase cost is not zero, the real profit ratio is the profit less
///   the tax to pay (converted into the sell's currency at the execution date and
///   rounded to cents), divided by the purchase cost in the sell's currency;
///   there is none for a zero purchase cost;
/// - where the local purchase cost is not zero, the real local profit ratio is the
///   local profit less the tax to pay, divided by the local purchase cost; there is
///   none for a zero local purchase cost.
pub proof fn lemma_real_ratios_are_after_tax<V: CurrencyConverter>(
    converter: &V, sell: StockSell, totals: SellTotals, profit_currency: Currency, profit: (int, nat),
    local_profit: Cash, tax_to_pay: Cash, tax_ratio: Option<Decimal>, profit_ratio: Option<Decimal>,
    local_profit_ratio: Option<Decimal>,
)
    requires
        sell_ratios(converter, sell, totals, profit_currency, profit, local_profit, tax_to_pay,
            Ok::<(Option<Decimal>, Option<Decimal>, Option<Decimal>), Error>((tax_ratio, profit_ratio, local_profit_ratio))),
    ensures
        profit.0 == 0 ==> tax_ratio is None,
        profit.0 != 0 ==> exists|answer: Result<Decimal, Error>|
            #[trigger] converter_answers(converter, sell.execution_date, tax_to_pay, profit_currency, answer)
            && (answer matches Ok(tax) && tax_ratio matches Some(ratio) && decimal_checked_div(tax@, profit) == Some(ratio@)),
        totals.purchase_cost.amount@.0 == 0 ==> profit_ratio is None,
        totals.purchase_cost.amount@.0 != 0 ==> exists|answer: Result<Decimal, Error>|
            #[trigger] converter_answers(converter, sell.execution_date, tax_to_pay, totals.purchase_cost.currency, answer)
            && (answer matches Ok(tax) && decimal_checked_sub(profit, rounded(tax@)) matches Some(real_profit)
            && profit_ratio matches Some(ratio)
            && decimal_checked_div(real_profit, totals.purchase_cost.amount@) == Some(ratio@)),
        totals.purchase_local_cost.amount@.0 == 0 ==> local_profit_ratio is None,
        totals.purchase_local_cost.amount@.0 != 0 ==> (
            decimal_checked_sub(local_profit.amount@, tax_to_pay.amount@) matches Some(real_local_profit)
            && local_profit_ratio matches Some(ratio)
            && decimal_checked_div(real_local_profit, totals.purchase_local_cost.amount@) == Some(ratio@)),
{
}

/// Selling the whole unsold quantity of a position sells it out: the quantity sold
/// before plus the unsold quantity is the quantity of the position, where
/// `rust_decimal` subtracts and adds exactly (`get_unsold` and `sell` state when).
pub proof fn lemma_selling_unsold_sells_out(quantity: (int, nat), sold: (int, nat))
    ensures
        same_value(crate::decimal::aligned_sum(sold, crate::decimal::aligned_difference(quantity, sold)), quantity),
{
    let s = crate::decimal::max_scale(quantity, sold);
    let unsold = crate::decimal::aligned_difference(quantity, sold);
    assert(unsold.1 == s);
    assert(crate::decimal::max_scale(sold, unsold) == s);
    assert(crate::decimal::pow10(0) == 1);
    assert(unsold.0 * crate::decimal::pow10(0) == unsold.0);
    assert(crate::decimal::aligned_sum(sold, unsold).0 == quantity.0 * crate::decimal::pow10((s - quantity.1) as nat));
    crate::decimal::lemma_rescale_same_value(quantity.0, quantity.1, s);
}

/// A sell keeps a position's sold quantity within the position: where the quantity
/// sold is not above the unsold quantity, the quantity sold before plus it is not
/// above the quantity of the position, where `rust_decimal` subtracts and adds
/// exactly (`get_unsold` and `sell` state when).
pub proof fn lemma_sell_stays_within_position(quantity: (int, nat), sold: (int, nat), selling: (int, nat))
    requires
        !less_value(crate::decimal::aligned_difference(quantity, sold), selling),
    ensures
        !less_value(quantity, crate::decimal::aligned_sum(sold, selling)),
{
    let n = quantity.1 + sold.1 + selling.1;
    let unsold = crate::decimal::aligned_difference(quantity, sold);
    let after = crate::decimal::aligned_sum(sold, selling);
    crate::decimal::lemma_value_at_aligned(quantity, sold, n);
    crate::decimal::lemma_value_at_aligned(sold, selling, n);
    crate::decimal::lemma_value_at_less(unsold, selling, n);
    crate::decimal::lemma_value_at_less(quantity, after, n);
}

/// Selling from a position adds up the quantities sold: the sold quantity after
/// sells of the quantities `sells` from nothing, written at a scale `n` that holds
/// all their scales, is their sum.
#[verifier::spinoff_prover]
pub proof fn lemma_sold_quantities_add_up(sells: Seq<(int, nat)>, n: nat)
    requires
        forall|i: int| 0 <= i < sells.len() ==> #[trigger] sells[i].1 <= n,
    ensures
        sold_after((0int, 0nat), sells).1 <= n,
        crate::decimal::value_at(sold_after((0int, 0nat), sells), n) == total_at(sells, n),
    decreases sells.len(),
{
    if sells.len() > 0 {
        let prefix = sells.drop_last();
        assert forall|i: int| 0 <= i < prefix.len() implies #[trigger] prefix[i].1 <= n by {
            assert(prefix[i] == sells[i]);
        }
        lemma_sold_quantities_add_up(prefix, n);
        let before = sold_after((0int, 0nat), prefix);
        let q = sells.last();
        assert(q == sells[sells.len() - 1]);
        if before.0 == 0 {
            let p = crate::decimal::pow10((n - before.1) as nat);
            assert(0int * p == 0) by (nonlinear_arith);
        } else if q.0 == 0 {
            let p = crate::decimal::pow10((n - q.1) as nat);
            assert(0int * p == 0) by (nonlinear_arith);
        } else {
            crate::decimal::lemma_value_at_aligned(before, q, n);
        }
    }
}

/// A position counts as sold exactly when the quantities sold from it add up to its
/// quantity: the sold quantity after sells of the quantities `sells` has the value
/// of `quantity` exactly when their sum, written at a scale `n` that holds the
/// scale of `quantity` together with any of theirs, is `quantity` written there.
pub proof fn lemma_sold_out_when_sells_add_up(quantity: (int, nat), sells: Seq<(int, nat)>, n: nat)
    requires
        quantity.1 <= n,
        forall|i: int| 0 <= i < sells.len() ==> #[trigger] sells[i].1 + quantity.1 <= n,
    ensures
        same_value(sold_after((0int, 0nat), sells), quantity)
            <==> total_at(sells, n) == crate::decimal::value_at(quantity, n),
{
    let m = (n - quantity.1) as nat;
    assert forall|i: int| 0 <= i < sells.len() implies #[trigger] sells[i].1 <= m by {
        assert(sells[i].1 + quantity.1 <= n);
    }
    lemma_sold_quantities_add_up(sells, m);
    assert forall|i: int| 0 <= i < sells.len() implies #[trigger] sells[i].1 <= n by {
        assert(sells[i].1 + quantity.1 <= n);
    }
    lemma_sold_quantities_add_up(sells, n);
    let sold = sold_after((0int, 0nat), sells);
    crate::decimal::lemma_value_at_less(sold, quantity, n);
    crate::decimal::lemma_value_at_less(quantity, sold, n);
}

/// The unsold quantity of a position is its quantity less the quantities sold from
/// it: after sells of the quantities `sells`, written at a scale `n` that holds all
/// the scales, it is the quantity less their sum.
pub proof fn lemma_unsold_is_quantity_less_sells(quantity: (int, nat), sells: Seq<(int, nat)>, n: nat)
    requires
        quantity.1 <= n,
        forall|i: int| 0 <= i < sells.len() ==> #[trigger] sells[i].1 <= n,
    ensures
        crate::decimal::value_at(unsold_of(quantity, sold_after((0int, 0nat), sells)), n)
            == crate::decimal::value_at(quantity, n) - total_at(sells, n),
{
    lemma_sold_quantities_add_up(sells, n);
    let sold = sold_after((0int, 0nat), sells);
    if quantity.0 == 0 {
        let p = crate::decimal::pow10((n - sold.1) as nat);
        let r = crate::decimal::pow10((n - quantity.1) as nat);
        assert((-sold.0) * p == -(sold.0 * p)) by (nonlinear_arith);
        assert(0int * r == 0) by (nonlinear_arith);
    } else if sold.0 == 0 {
        let p = crate::decimal::pow10((n - sold.1) as nat);
        assert(0int * p == 0) by (nonlinear_arith);
    } else {
        crate::decimal::lemma_value_at_aligned(quantity, sold, n);
    }
}

/// The number of stocks that the FIFO matches of a sell account for, summed up as
/// the sources are.
pub open spec fn fifo_quantity(fifo: Seq<FifoDetails>) -> Option<(int, nat)>
    decreases fifo.len(),
{
    if fifo.len() == 0 {
        Some((0int, 0nat))
    } else {
        match (fifo_quantity(fifo.drop_last()), decimal_checked_mul(fifo.last().multiplier@, fifo.last().quantity@)) {
            (Some(total), Some(part)) => decimal_checked_add(total, part),
            _ => None,
        }
    }
}

/// The FIFO matches of a calculated sell account for exactly the quantity sold.
pub proof fn lemma_fifo_accounts_for_sell(details: SellDetails, sell: StockSell, tax_exemptions: Seq<TaxExemption>)
    requires
        calculable(sell),
        sell_details_describe(details, sell, tax_exemptions),
    ensures
        fifo_quantity(details.fifo@) == sources_quantity(sell.sources@),
        fifo_quantity(details.fifo@) matches Some(total) && same_value(total, sell.quantity@),
{
    lemma_fifo_quantity_prefix(details.fifo@, sell.sources@, details.fifo@.len() as int, details.local_revenue.currency);
    assert(details.fifo@.take(details.fifo@.len() as int) =~= details.fifo@);
    assert(sell.sources@.take(sell.sources@.len() as int) =~= sell.sources@);
}

proof fn lemma_fifo_quantity_prefix(fifo: Seq<FifoDetails>, sources: Seq<StockSellSource>, n: int, local: Currency)
    requires
        fifo.len() == sources.len(),
        0 <= n <= fifo.len(),
        forall|i: int| 0 <= i < sources.len() ==> fifo_describes(#[trigger] fifo[i], sources[i], local),
    ensures
        fifo_quantity(fifo.take(n)) == sources_quantity(sources.take(n)),
    decreases n,
{
    if n > 0 {
        lemma_fifo_quantity_prefix(fifo, sources, n - 1, local);
        assert(fifo.take(n).drop_last() =~= fifo.take(n - 1));
        assert(sources.take(n).drop_last() =~= sources.take(n - 1));
        assert(fifo_describes(fifo[n - 1], sources[n - 1], local));
    }
}

} // verus!

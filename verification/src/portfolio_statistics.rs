//! Statistics of a portfolio analysis: per currency of the report, the assets by
//! instrument and by broker, the performance and the projected taxes and
//! commissions; the deductions for long-term ownership.

use vstd::prelude::*;

use crate::cash::Cash;
use crate::decimal::{decimal_checked_add, Decimal};
use crate::error::Error;
use crate::ordered_map::OrderedMap;
use crate::trades::Country;

verus! {

/// The deduction for long-term ownership applied in a year.
#[derive(Clone, Copy, Debug)]
pub struct NetLtoDeduction {
    pub deduction: Decimal,
    pub loss: Decimal,
    pub applied_above_limit: Decimal,
}

/// A projected deduction for long-term ownership.
#[derive(Clone, Copy, Debug)]
pub struct LtoDeduction {
    pub deduction: Decimal,
}

/// The deductions for long-term ownership: those applied, at most one per year and
/// kept in the order of the years, and the projected one.
pub struct LtoStatistics {
    applied: Vec<(i32, NetLtoDeduction)>,
    projected: LtoDeduction,
}

/// The years of the applied deductions strictly increase.
pub open spec fn years_ascending(applied: Seq<(i32, NetLtoDeduction)>) -> bool {
    forall|i: int, j: int| 0 <= i < j < applied.len() ==> #[trigger] applied[i].0 < #[trigger] applied[j].0
}

/// `after` is `before` with the deduction of `year` set to `deduction`: it replaces
/// the one of that year where there is one, else it is inserted where the order of
/// the years puts it.
pub open spec fn deduction_set(
    before: Seq<(i32, NetLtoDeduction)>, year: i32, deduction: NetLtoDeduction, after: Seq<(i32, NetLtoDeduction)>,
) -> bool {
    exists|k: int| #![trigger before[k]] #![trigger after[k]]
        0 <= k <= before.len()
        && (forall|i: int| 0 <= i < k ==> #[trigger] before[i].0 < year)
        && (k < before.len() ==> before[k].0 >= year)
        && if k < before.len() && before[k].0 == year {
            after == before.update(k, (year, deduction))
        } else {
            after == before.insert(k, (year, deduction))
        }
}

impl LtoStatistics {
    #[verifier::type_invariant]
    spec fn years_in_order(self) -> bool {
        years_ascending(self.applied@)
    }

    /// The applied deductions, by year, in the order of the years.
    pub closed spec fn applied_view(self) -> Seq<(i32, NetLtoDeduction)> {
        self.applied@
    }

    /// The projected deduction.
    pub closed spec fn projected_view(self) -> LtoDeduction {
        self.projected
    }

    /// No deduction applied yet, and the projected one.
    pub fn new(projected: LtoDeduction) -> (r: LtoStatistics)
        ensures
            r.applied_view() == Seq::<(i32, NetLtoDeduction)>::empty(),
            r.projected_view() == projected,
    {
        LtoStatistics { applied: Vec::new(), projected }
    }

    /// The applied deductions, by year, in the order of the years.
    pub fn applied(&self) -> (r: &Vec<(i32, NetLtoDeduction)>)
        ensures
            r@ == self.applied_view(),
            years_ascending(r@),
    {
        proof {
            use_type_invariant(self);
        }
        &self.applied
    }

    /// The projected deduction.
    pub fn projected(&self) -> (r: LtoDeduction)
        ensures
            r == self.projected_view(),
    {
        self.projected
    }

    /// Sets the deduction applied in `year`, replacing the one of that year.
    pub fn apply(&mut self, year: i32, deduction: NetLtoDeduction)
        ensures
            deduction_set(old(self).applied_view(), year, deduction, final(self).applied_view()),
            years_ascending(final(self).applied_view()),
            final(self).projected_view() == old(self).projected_view(),
    {
        proof {
            use_type_invariant(&*self);
        }
        let mut applied: Vec<(i32, NetLtoDeduction)> = Vec::new();
        std::mem::swap(&mut applied, &mut self.applied);
        let ghost before = applied@;
        let mut k: usize = 0;
        while k < applied.len() && applied[k].0 < year
            invariant
                applied@ == before,
                years_ascending(before),
                0 <= k <= before.len(),
                forall|i: int| 0 <= i < k ==> #[trigger] before[i].0 < year,
            decreases before.len() - k,
        {
            k = k + 1;
        }
        if k < applied.len() && applied[k].0 == year {
            applied.set(k, (year, deduction));
        } else {
            applied.insert(k, (year, deduction));
        }
        proof {
            assert(k < before.len() ==> before[k as int].0 >= year);
            assert(deduction_set(before, year, deduction, applied@));
            assert forall|i: int, j: int| 0 <= i < j < applied@.len() implies
                #[trigger] applied@[i].0 < #[trigger] applied@[j].0 by {
                if k < before.len() && before[k as int].0 == year {
                    assert(applied@[i] == (if i == k { (year, deduction) } else { before[i] }));
                    assert(applied@[j] == (if j == k { (year, deduction) } else { before[j] }));
                    if j == k {
                        assert(before[i].0 < year);
                    } else if i == k {
                        assert(before[k as int].0 < before[j].0);
                    }
                } else {
                    if i < k {
                        assert(applied@[i] == before[i]);
                    } else if i > k {
                        assert(applied@[i] == before[i - 1]);
                    }
                    if j < k {
                        assert(applied@[j] == before[j]);
                    } else if j > k {
                        assert(applied@[j] == before[j - 1]);
                        if i < k {
                            assert(before[i].0 < year);
                        }
                        assert(before[k as int].0 >= year);
                        if j - 1 > k {
                            assert(before[k as int].0 < before[j - 1].0);
                        }
                    }
                }
            }
        }
        self.applied = applied;
    }
}

/// The statistics of the portfolio in one currency of the report; `P` is the
/// performance analysis.
pub struct PortfolioCurrencyStatistics<P> {
    pub currency: String,

    /// The value of the assets by instrument, in the order of the instruments.
    pub assets: OrderedMap<Decimal>,
    /// The value of the assets by broker, in the order of the brokers' names.
    pub brokers: OrderedMap<Decimal>,
    pub performance: Option<P>,

    pub projected_taxes: Decimal,
    pub projected_tax_deductions: Decimal,
    pub projected_commissions: Decimal,
}

/// The statistics of a portfolio analysis for the taxes of country `C`; `P` is the
/// performance analysis.
pub struct PortfolioStatistics<C, P> {
    pub country: C,
    pub currencies: Vec<PortfolioCurrencyStatistics<P>>,
    pub asset_groups: OrderedMap<Vec<Cash>>,
    pub lto: Option<LtoStatistics>,
}

/// What the statistics report, in the order of the report.
#[derive(Clone, Copy, Debug)]
pub enum StatisticsReport {
    /// A warning: the deduction for long-term ownership was lost in the year.
    LtoLoss { year: i32, amount: Decimal },
    /// A warning: the deductions applied in the year exceeded the total limit.
    LtoAboveLimit { year: i32, amount: Decimal },
    /// The performance of the currency statistics with this index: the average rate
    /// of return from cash investments in its currency.
    Performance { index: usize },
    /// The projected deduction for long-term ownership.
    ProjectedLto { deduction: Decimal },
}

/// The warnings on the applied deductions for long-term ownership: for each year a
/// loss, where it is not zero, then an excess over the limit, where it is not zero.
pub open spec fn lto_warnings(applied: Seq<(i32, NetLtoDeduction)>) -> Seq<StatisticsReport>
    decreases applied.len(),
{
    if applied.len() == 0 {
        Seq::empty()
    } else {
        let (year, result) = applied.last();
        let loss = if result.loss@.0 != 0 {
            seq![StatisticsReport::LtoLoss { year, amount: result.loss }]
        } else {
            Seq::empty()
        };
        let above = if result.applied_above_limit@.0 != 0 {
            seq![StatisticsReport::LtoAboveLimit { year, amount: result.applied_above_limit }]
        } else {
            Seq::empty()
        };
        lto_warnings(applied.drop_last()) + loss + above
    }
}

/// A warning on the applied deductions says what the deduction of its year says.
pub open spec fn warning_of_deductions(applied: Seq<(i32, NetLtoDeduction)>, warning: StatisticsReport) -> bool {
    match warning {
        StatisticsReport::LtoLoss { year, amount } => amount@.0 != 0 && exists|j: int|
            0 <= j < applied.len() && (#[trigger] applied[j]).0 == year && applied[j].1.loss == amount,
        StatisticsReport::LtoAboveLimit { year, amount } => amount@.0 != 0 && exists|j: int|
            0 <= j < applied.len() && (#[trigger] applied[j]).0 == year && applied[j].1.applied_above_limit == amount,
        _ => false,
    }
}

/// The warnings on the applied deductions are what the deductions say: each loss
/// warning of a year carries the loss of that year's deduction, not zero, and each
/// warning of an excess over the limit that year's excess, not zero; and every loss
/// and every excess that is not zero is warned of, with its year.
pub proof fn lemma_lto_warnings_carry_the_deductions(applied: Seq<(i32, NetLtoDeduction)>)
    ensures
        forall|i: int| 0 <= i < lto_warnings(applied).len()
            ==> warning_of_deductions(applied, #[trigger] lto_warnings(applied)[i]),
        forall|j: int| 0 <= j < applied.len() && (#[trigger] applied[j]).1.loss@.0 != 0
            ==> lto_warnings(applied).contains(StatisticsReport::LtoLoss { year: applied[j].0, amount: applied[j].1.loss }),
        forall|j: int| 0 <= j < applied.len() && (#[trigger] applied[j]).1.applied_above_limit@.0 != 0
            ==> lto_warnings(applied).contains(
                StatisticsReport::LtoAboveLimit { year: applied[j].0, amount: applied[j].1.applied_above_limit }),
    decreases applied.len(),
{
    if applied.len() > 0 {
        let prefix = applied.drop_last();
        lemma_lto_warnings_carry_the_deductions(prefix);
        let (year, result) = applied.last();
        let last = applied.len() - 1;
        assert(applied[last] == (year, result));
        let earlier = lto_warnings(prefix);
        let loss = if result.loss@.0 != 0 {
            seq![StatisticsReport::LtoLoss { year: year, amount: result.loss }]
        } else {
            Seq::empty()
        };
        let above = if result.applied_above_limit@.0 != 0 {
            seq![StatisticsReport::LtoAboveLimit { year: year, amount: result.applied_above_limit }]
        } else {
            Seq::empty()
        };
        let all = lto_warnings(applied);
        assert(all == earlier + loss + above);
        assert forall|i: int| 0 <= i < all.len() implies warning_of_deductions(applied, #[trigger] all[i]) by {
            if i < earlier.len() {
                assert(all[i] == earlier[i]);
                assert(warning_of_deductions(prefix, earlier[i]));
                match earlier[i] {
                    StatisticsReport::LtoLoss { year: y, amount } => {
                        let j = choose|j: int| 0 <= j < prefix.len() && (#[trigger] prefix[j]).0 == y && prefix[j].1.loss == amount;
                        assert(applied[j] == prefix[j]);
                    },
                    StatisticsReport::LtoAboveLimit { year: y, amount } => {
                        let j = choose|j: int| 0 <= j < prefix.len() && (#[trigger] prefix[j]).0 == y
                            && prefix[j].1.applied_above_limit == amount;
                        assert(applied[j] == prefix[j]);
                    },
                    _ => {},
                }
            } else if i < earlier.len() + loss.len() {
                assert(all[i] == loss[i - earlier.len()]);
                assert(applied[last].0 == year);
            } else {
                assert(all[i] == above[i - earlier.len() - loss.len()]);
                assert(applied[last].0 == year);
            }
        }
        assert forall|j: int| 0 <= j < applied.len() && (#[trigger] applied[j]).1.loss@.0 != 0 implies
            all.contains(StatisticsReport::LtoLoss { year: applied[j].0, amount: applied[j].1.loss }) by {
            let w = StatisticsReport::LtoLoss { year: applied[j].0, amount: applied[j].1.loss };
            if j < last {
                assert(applied[j] == prefix[j]);
                let k = choose|k: int| 0 <= k < earlier.len() && earlier[k] == w;
                assert(all[k] == earlier[k]);
            } else {
                assert(all[earlier.len() as int] == w);
            }
        }
        assert forall|j: int| 0 <= j < applied.len() && (#[trigger] applied[j]).1.applied_above_limit@.0 != 0 implies
            all.contains(StatisticsReport::LtoAboveLimit { year: applied[j].0, amount: applied[j].1.applied_above_limit }) by {
            let w = StatisticsReport::LtoAboveLimit { year: applied[j].0, amount: applied[j].1.applied_above_limit };
            if j < last {
                assert(applied[j] == prefix[j]);
                let k = choose|k: int| 0 <= k < earlier.len() && earlier[k] == w;
                assert(all[k] == earlier[k]);
            } else {
                assert(all[(earlier.len() + loss.len()) as int] == w);
            }
        }
    }
}

/// The performance reports of the first `n` currency statistics.
pub open spec fn performance_reports(n: nat) -> Seq<StatisticsReport>
    decreases n,
{
    if n == 0 {
        Seq::empty()
    } else {
        performance_reports((n - 1) as nat).push(StatisticsReport::Performance { index: (n - 1) as usize })
    }
}

/// The report of the statistics: the warnings on the deductions for long-term
/// ownership, the performance in each currency, and the projected deduction where
/// it is not zero.
pub open spec fn statistics_report(lto: LtoStatistics, currencies: nat) -> Seq<StatisticsReport> {
    lto_warnings(lto.applied_view()) + performance_reports(currencies) + if lto.projected_view().deduction@.0 != 0 {
        seq![StatisticsReport::ProjectedLto { deduction: lto.projected_view().deduction }]
    } else {
        Seq::empty()
    }
}

/// The performance reports name each currency statistics once, in order.
pub proof fn lemma_performance_reports_in_order(n: nat)
    ensures
        performance_reports(n).len() == n,
        forall|i: int| 0 <= i < n ==> #[trigger] performance_reports(n)[i] == (StatisticsReport::Performance { index: i as usize }),
    decreases n,
{
    if n > 0 {
        lemma_performance_reports_in_order((n - 1) as nat);
    }
}

/// The value of `key` in a map of amounts, zero where it has none.
pub open spec fn amount_or_zero(amounts: Map<Seq<char>, Decimal>, key: Seq<char>) -> (int, nat) {
    if amounts.contains_key(key) {
        amounts[key]@
    } else {
        (0int, 0nat)
    }
}

/// The amount of `key` can grow by `amount`.
pub open spec fn can_add(amounts: Map<Seq<char>, Decimal>, key: Seq<char>, amount: Decimal) -> bool {
    decimal_checked_add(amount_or_zero(amounts, key), amount@) is Some
}

/// The amount of `key` grew by `amount` and no other amount changed.
pub open spec fn amount_added(
    new_amounts: Map<Seq<char>, Decimal>, old_amounts: Map<Seq<char>, Decimal>, key: Seq<char>, amount: Decimal,
) -> bool {
    &&& new_amounts == old_amounts.insert(key, new_amounts[key])
    &&& decimal_checked_add(amount_or_zero(old_amounts, key), amount@) == Some(new_amounts[key]@)
}

impl<P> PortfolioCurrencyStatistics<P> {
    /// Statistics in `currency` with no assets, no performance and zero projections.
    pub fn new(currency: &str) -> (r: PortfolioCurrencyStatistics<P>)
        ensures
            r.currency@ == currency@,
            r.assets.as_map() == Map::<Seq<char>, Decimal>::empty(),
            r.brokers.as_map() == Map::<Seq<char>, Decimal>::empty(),
            r.performance is None,
            r.projected_taxes@ == (0int, 0nat),
            r.projected_tax_deductions@ == (0int, 0nat),
            r.projected_commissions@ == (0int, 0nat),
    {
        PortfolioCurrencyStatistics {
            currency: currency.to_owned(),
            assets: OrderedMap::new(),
            brokers: OrderedMap::new(),
            performance: None,
            projected_taxes: Decimal::zero(),
            projected_tax_deductions: Decimal::zero(),
            projected_commissions: Decimal::zero(),
        }
    }

    /// Adds `amount` to the assets of `instrument` held at `broker`.
    pub fn add_assets(&mut self, broker: &str, instrument: &str, amount: Decimal)
        requires
            can_add(old(self).assets.as_map(), instrument@, amount),
            can_add(old(self).brokers.as_map(), broker@, amount),
        ensures
            amount_added(final(self).assets.as_map(), old(self).assets.as_map(), instrument@, amount),
            amount_added(final(self).brokers.as_map(), old(self).brokers.as_map(), broker@, amount),
            final(self).currency == old(self).currency,
            final(self).performance == old(self).performance,
            final(self).projected_taxes == old(self).projected_taxes,
            final(self).projected_tax_deductions == old(self).projected_tax_deductions,
            final(self).projected_commissions == old(self).projected_commissions,
    {
        add_amount(&mut self.assets, instrument, amount);
        add_amount(&mut self.brokers, broker, amount);
    }

    /// `add_assets` where both amounts can grow by `amount`; else nothing changes and
    /// `Error::Overflow` is returned.
    pub fn try_add_assets(&mut self, broker: &str, instrument: &str, amount: Decimal) -> (r: Result<(), Error>)
        ensures
            r is Ok <==> can_add(old(self).assets.as_map(), instrument@, amount)
                && can_add(old(self).brokers.as_map(), broker@, amount),
            r is Ok ==> amount_added(final(self).assets.as_map(), old(self).assets.as_map(), instrument@, amount)
                && amount_added(final(self).brokers.as_map(), old(self).brokers.as_map(), broker@, amount),
            r is Err ==> final(self).assets.as_map() == old(self).assets.as_map()
                && final(self).brokers.as_map() == old(self).brokers.as_map(),
    {
        if amount_sum(&self.assets, instrument, amount).is_none() || amount_sum(&self.brokers, broker, amount).is_none() {
            return Err(Error::Overflow);
        }
        self.add_assets(broker, instrument, amount);
        Ok(())
    }
}

/// The amount of `key` grown by `amount`.
fn amount_sum(amounts: &OrderedMap<Decimal>, key: &str, amount: Decimal) -> (r: Option<Decimal>)
    ensures
        crate::decimal::option_view(r) == decimal_checked_add(amount_or_zero(amounts.as_map(), key@), amount@),
{
    let current = match amounts.get(key) {
        Some(current) => *current,
        None => Decimal::zero(),
    };
    current.checked_add(amount)
}

fn add_amount(amounts: &mut OrderedMap<Decimal>, key: &str, amount: Decimal)
    requires
        can_add(old(amounts).as_map(), key@, amount),
    ensures
        amount_added(final(amounts).as_map(), old(amounts).as_map(), key@, amount),
{
    match amount_sum(amounts, key, amount) {
        Some(sum) => {
            amounts.insert(key, sum);
            assert(final(amounts).as_map() =~= old(amounts).as_map().insert(key@, final(amounts).as_map()[key@]));
        },
        None => {},
    }
}

proof fn lemma_unit_ok(r: Result<(), Error>)
    requires
        r is Ok,
    ensures
        r == Ok::<(), Error>(()),
{
    match r {
        Ok(u) => {
            assert(u == ());
        },
        Err(_) => {},
    }
}

impl<C: Country, P> PortfolioStatistics<C, P> {
    /// Statistics in USD and RUB, with no asset groups and no deductions for
    /// long-term ownership.
    pub fn new(country: C) -> (r: PortfolioStatistics<C, P>)
        ensures
            r.currencies@.len() == 2,
            r.currencies@[0].currency@ == "USD"@,
            r.currencies@[1].currency@ == "RUB"@,
            forall|i: int| 0 <= i < 2 ==> {
                &&& (#[trigger] r.currencies@[i]).assets.as_map() == Map::<Seq<char>, Decimal>::empty()
                &&& r.currencies@[i].brokers.as_map() == Map::<Seq<char>, Decimal>::empty()
                &&& r.currencies@[i].performance is None
                &&& r.currencies@[i].projected_taxes@ == (0int, 0nat)
                &&& r.currencies@[i].projected_tax_deductions@ == (0int, 0nat)
                &&& r.currencies@[i].projected_commissions@ == (0int, 0nat)
            },
            r.asset_groups.as_map() == Map::<Seq<char>, Vec<Cash>>::empty(),
            r.lto is None,
    {
        let mut currencies: Vec<PortfolioCurrencyStatistics<P>> = Vec::new();
        currencies.push(PortfolioCurrencyStatistics::new("USD"));
        currencies.push(PortfolioCurrencyStatistics::new("RUB"));
        PortfolioStatistics { country, currencies, asset_groups: OrderedMap::new(), lto: None }
    }

    /// What the statistics report. The deductions for long-term ownership and the
    /// performance in every currency must have been calculated.
    pub fn report(&self) -> (r: Vec<StatisticsReport>)
        requires
            self.lto is Some,
            forall|i: int| 0 <= i < self.currencies@.len() ==> (#[trigger] self.currencies@[i]).performance is Some,
        ensures
            r@ == statistics_report(self.lto.unwrap(), self.currencies@.len()),
            years_ascending(self.lto.unwrap().applied_view()),
    {
        let lto = match &self.lto {
            Some(lto) => lto,
            None => return Vec::new(),
        };
        let applied = lto.applied();
        let mut report: Vec<StatisticsReport> = Vec::new();
        for i in 0..applied.len()
            invariant
                report@ == lto_warnings(applied@.take(i as int)),
        {
            let (year, result) = applied[i];
            proof {
                assert(applied@.take(i + 1).drop_last() =~= applied@.take(i as int));
            }
            if !result.loss.is_zero() {
                report.push(StatisticsReport::LtoLoss { year, amount: result.loss });
            }
            if !result.applied_above_limit.is_zero() {
                report.push(StatisticsReport::LtoAboveLimit { year, amount: result.applied_above_limit });
            }
            proof {
                assert(report@ =~= lto_warnings(applied@.take(i + 1)));
            }
        }
        assert(applied@.take(applied@.len() as int) =~= applied@);
        let ghost warnings = report@;
        for i in 0..self.currencies.len()
            invariant
                report@ == warnings + performance_reports(i as nat),
        {
            report.push(StatisticsReport::Performance { index: i });
            assert(report@ =~= warnings + performance_reports((i + 1) as nat));
        }
        let projected = lto.projected();
        if !projected.deduction.is_zero() {
            report.push(StatisticsReport::ProjectedLto { deduction: projected.deduction });
        }
        assert(report@ =~= statistics_report(*lto, self.currencies@.len()));
        report
    }

    /// Runs `handler` on the statistics of every currency, in order, up to its first
    /// error, which is returned. There are runs of `handler` (`refs`, one per
    /// statistics handled, with what each returned in `results`) such that each
    /// statistics handled is what its run made of it: every run before the last one
    /// returned `Ok`, the last one returned the result (so all of them ran where it
    /// is `Ok`), and the statistics after it are unchanged.
    pub fn process<F>(&mut self, handler: F) -> (r: Result<(), Error>)
        where F: FnMut(&mut PortfolioCurrencyStatistics<P>) -> Result<(), Error>
        requires
            forall|s: &mut PortfolioCurrencyStatistics<P>| call_requires(handler, (s,)),
        ensures
            final(self).currencies@.len() == old(self).currencies@.len(),
            final(self).country == old(self).country,
            final(self).asset_groups == old(self).asset_groups,
            final(self).lto == old(self).lto,
            exists|refs: Seq<&mut PortfolioCurrencyStatistics<P>>, results: Seq<Result<(), Error>>| #![trigger refs.len(), results.len()] {
                &&& refs.len() == results.len() <= old(self).currencies@.len()
                &&& r is Ok ==> refs.len() == old(self).currencies@.len()
                &&& r is Err ==> refs.len() >= 1 && results.last() == r
                &&& forall|j: int| 0 <= j < results.len() - 1 ==> #[trigger] results[j] == Ok::<(), Error>(())
                &&& r is Ok ==> forall|j: int| 0 <= j < results.len() ==> #[trigger] results[j] == Ok::<(), Error>(())
                &&& forall|j: int| 0 <= j < refs.len() ==> *#[trigger] refs[j] == old(self).currencies@[j]
                    && *final(refs[j]) == final(self).currencies@[j] && call_ensures(handler, (refs[j],), results[j])
                &&& forall|j: int| refs.len() <= j < old(self).currencies@.len()
                    ==> #[trigger] final(self).currencies@[j] == old(self).currencies@[j]
            },
    {
        let ghost before = self.currencies@;
        let mut run = handler;
        let mut currencies: Vec<PortfolioCurrencyStatistics<P>> = Vec::new();
        std::mem::swap(&mut currencies, &mut self.currencies);
        let total = currencies.len();
        let mut result: Result<(), Error> = Ok(());
        let mut remaining = currencies;
        let ghost mut results: Seq<Result<(), Error>> = Seq::empty();
        assert(remaining@ =~= before.subrange(0, total as int));
        proof {
            let refs: Seq<&mut PortfolioCurrencyStatistics<P>> = Seq::empty();
            assert(refs.len() == 0);
        }
        while remaining.len() > 0
            invariant
                total == before.len(),
                self.currencies@.len() + remaining@.len() == total,
                remaining@ =~= before.subrange(self.currencies@.len() as int, total as int),
                self.country == old(self).country,
                self.asset_groups == old(self).asset_groups,
                self.lto == old(self).lto,
                run == handler,
                forall|s: &mut PortfolioCurrencyStatistics<P>| call_requires(handler, (s,)),
                results.len() <= self.currencies@.len(),
                result is Ok ==> results.len() == self.currencies@.len(),
                result is Err ==> results.len() >= 1 && results.last() == result,
                forall|j: int| 0 <= j < results.len() - 1 ==> #[trigger] results[j] == Ok::<(), Error>(()),
                result is Ok ==> forall|j: int| 0 <= j < results.len() ==> #[trigger] results[j] == Ok::<(), Error>(()),
                forall|j: int| results.len() <= j < self.currencies@.len() ==> #[trigger] self.currencies@[j] == before[j],
                exists|refs: Seq<&mut PortfolioCurrencyStatistics<P>>| #![trigger refs.len()] refs.len() == results.len()
                    && forall|j: int| 0 <= j < refs.len() ==> *#[trigger] refs[j] == before[j]
                        && *final(refs[j]) == self.currencies@[j] && call_ensures(handler, (refs[j],), results[j]),
            decreases remaining@.len(),
        {
            let ghost done = self.currencies@;
            let ghost results_before = results;
            let mut statistics = remaining.remove(0);
            let ghost pre = statistics;
            let ghost mut after = statistics;
            let ghost mut ran = false;
            assert(pre == before[done.len() as int]);
            if result.is_ok() {
                result = run(&mut statistics);
                proof {
                    after = statistics;
                    ran = true;
                    assert(exists|s: &mut PortfolioCurrencyStatistics<P>| *s == pre && *final(s) == after
                        && #[trigger] call_ensures(handler, (s,), result));
                    results = results.push(result);
                    if result is Ok {
                        lemma_unit_ok(result);
                    }
                }
            }
            let ghost last = statistics;
            self.currencies.push(statistics);
            proof {
                assert(self.currencies@ == done.push(last));
                assert(remaining@ =~= before.subrange(self.currencies@.len() as int, total as int));
                assert forall|j: int| 0 <= j < done.len() implies #[trigger] self.currencies@[j] == done[j] by {}
                assert forall|j: int| results.len() <= j < self.currencies@.len() implies
                    #[trigger] self.currencies@[j] == before[j] by {
                    if j < done.len() {
                        assert(self.currencies@[j] == done[j]);
                    }
                }
                let refs = choose|refs: Seq<&mut PortfolioCurrencyStatistics<P>>| #![trigger refs.len()] refs.len() == results_before.len()
                    && forall|j: int| 0 <= j < refs.len() ==> *#[trigger] refs[j] == before[j]
                        && *final(refs[j]) == done[j] && call_ensures(handler, (refs[j],), results_before[j]);
                if ran {
                    let s = choose|s: &mut PortfolioCurrencyStatistics<P>| *s == pre && *final(s) == after
                        && #[trigger] call_ensures(handler, (s,), result);
                    let longer = refs.push(s);
                    assert(longer.len() == results.len());
                    assert forall|j: int| 0 <= j < longer.len() implies *#[trigger] longer[j] == before[j]
                        && *final(longer[j]) == self.currencies@[j] && call_ensures(handler, (longer[j],), results[j]) by {
                        if j < refs.len() {
                            assert(longer[j] == refs[j]);
                            assert(results[j] == results_before[j]);
                            assert(self.currencies@[j] == done[j]);
                        } else {
                            assert(longer[j] == s);
                        }
                    }
                } else {
                    assert(refs.len() == results.len());
                    assert forall|j: int| 0 <= j < refs.len() implies *#[trigger] refs[j] == before[j]
                        && *final(refs[j]) == self.currencies@[j] && call_ensures(handler, (refs[j],), results[j]) by {
                        assert(self.currencies@[j] == done[j]);
                    }
                }
            }
        }
        proof {
            assert(self.currencies@.len() == before.len());
            let refs = choose|refs: Seq<&mut PortfolioCurrencyStatistics<P>>| #![trigger refs.len()] refs.len() == results.len()
                && forall|j: int| 0 <= j < refs.len() ==> *#[trigger] refs[j] == before[j]
                    && *final(refs[j]) == self.currencies@[j] && call_ensures(handler, (refs[j],), results[j]);
            assert(refs.len() == results.len());
        }
        result
    }
}

} // verus!

//! Position, cycle accounting, and [`Fill`]: the persisted state of an averaging strategy on
//! one ticker.

use crate::date::{earlier, Civil, Date};
use crate::decimal::{
    ceil_of, dec_of, decimal_difference, decimal_product, decimal_quotient, decimal_sum, least,
    lemma_ceil,
    lemma_least, lemma_least_is_least, lemma_sign, lemma_whole_number, minus, num, over, plus,
    representable, rounds, times, valid, whole, Dec, Decimal, MAX_MANTISSA,
};
use crate::market::{AccountId, BrokerId, Side, Ticker};
use crate::money::{left_of, total_of, tranche, Money, Price, Shares};
use crate::order::price_of;
use vstd::arithmetic::power::lemma_pow1;
use vstd::prelude::*;

verus! {

/// A broker-confirmed execution.
#[derive(Clone, Copy, Debug)]
pub struct Fill {
    pub side: Side,
    pub shares: Shares,
    pub price: Price,
    pub at: Date,
}

/// The model of a [`Fill`].
pub struct FillView {
    pub side: Side,
    pub shares: u32,
    pub price: Dec,
    pub at: Civil,
}

impl View for Fill {
    type V = FillView;

    open spec fn view(&self) -> FillView {
        FillView {
            side: self.side,
            shares: self.shares@,
            price: self.price@,
            at: self.at@,
        }
    }
}

/// The models of a run of fills.
pub open spec fn fills_of(fills: Seq<Fill>) -> Seq<FillView> {
    Seq::new(fills.len(), |i: int| fills[i]@)
}

/// The cash value of a fill.
pub open spec fn value_of(fill: FillView) -> Option<Dec> {
    total_of(fill.price, fill.shares)
}

impl Fill {
    /// Cash value of the fill (price times shares).
    pub fn value(&self) -> (r: Money)
        requires
            value_of(self@) is Some,
        ensures
            value_of(self@) == Some(r@),
    {
        self.price.total(self.shares)
    }

    /// Cash value of the fill; `None` where it leaves the range.
    pub fn try_value(&self) -> (r: Option<Money>)
        ensures
            match r {
                Some(m) => value_of(self@) == Some(m@),
                None => value_of(self@) is None,
            },
    {
        match self.price.try_total(self.shares) {
            Some(_) => Some(self.value()),
            None => None,
        }
    }
}

/// Live state of an infinite-buying position on one ticker.
#[derive(Debug)]
pub struct Position {
    pub account: AccountId,
    pub broker: BrokerId,
    pub ticker: Ticker,
    pub seed: Money,
    pub splits: u32,
    pub shares: Shares,
    pub avg_price: Option<Price>,
    pub cum_spent: Money,
    pub realized_pnl: Money,
    pub cycle_index: u32,
    pub cycle_start: Option<Date>,
    /// The last day whose fills are in the ledger.
    pub reconciled_through: Option<Date>,
}

/// The model of a [`Position`].
pub struct PositionView {
    pub account: Seq<char>,
    pub broker: BrokerId,
    pub ticker: Seq<char>,
    pub seed: Dec,
    pub splits: u32,
    pub shares: u32,
    pub avg_price: Option<Dec>,
    pub cum_spent: Dec,
    pub realized_pnl: Dec,
    pub cycle_index: u32,
    pub cycle_start: Option<Civil>,
    pub reconciled_through: Option<Civil>,
}

/// The day of an optional date.
pub open spec fn day_of(d: Option<Date>) -> Option<Civil> {
    match d {
        Some(d) => Some(d@),
        None => None,
    }
}

impl View for Position {
    type V = PositionView;

    open spec fn view(&self) -> PositionView {
        PositionView {
            account: self.account@,
            broker: self.broker,
            ticker: self.ticker@,
            seed: self.seed@,
            splits: self.splits,
            shares: self.shares@,
            avg_price: price_of(self.avg_price),
            cum_spent: self.cum_spent@,
            realized_pnl: self.realized_pnl@,
            cycle_index: self.cycle_index,
            cycle_start: day_of(self.cycle_start),
            reconciled_through: day_of(self.reconciled_through),
        }
    }
}

/// The tranche counter: what was spent over the daily budget, rounded up to one decimal
/// place; zero without a budget.
pub open spec fn tranches(seed: Dec, splits: u32, spent: Dec) -> Option<Dec> {
    match tranche(seed, splits) {
        Some(budget) => if budget.0 == 0 {
            Some(dec_of(0))
        } else {
            match times(over(Some(spent), Some(budget)), Some(dec_of(10))) {
                Some(tenths) => decimal_quotient(ceil_of(tenths), dec_of(10)),
                None => None,
            }
        },
        None => None,
    }
}

/// Whether a tranche counter is what was spent over the daily budget, rounded up to a tenth:
/// it is a whole number of tenths, and on the same side of every tenth as the exact quotient.
/// Without a budget it is zero.
pub open spec fn counts_tenths(p: PositionView, t: Dec) -> bool {
    let budget = decimal_quotient(p.seed, (if p.splits == 0 {
        1i128
    } else {
        p.splits as i128
    }, 0u32))->0;
    let exact = num(p.cum_spent) / num(budget);
    if budget.0 == 0 {
        num(t) == 0real
    } else {
        &&& exists|k: int| num(t) == #[trigger] whole(k) / 10real
        &&& forall|k: int|
            -MAX_MANTISSA <= k <= MAX_MANTISSA && exact <= #[trigger] whole(k) / 10real ==> num(t)
                <= whole(k) / 10real
        &&& forall|k: int|
            -MAX_MANTISSA <= k <= MAX_MANTISSA && exact >= #[trigger] whole(k) / 10real ==> num(t)
                >= whole(k) / 10real
    }
}

/// A whole number of tenths is a decimal.
proof fn lemma_tenth(k: int)
    requires
        -MAX_MANTISSA <= k <= MAX_MANTISSA,
    ensures
        valid((k as i128, 1u32)),
        num((k as i128, 1u32)) == whole(k) / 10real,
        representable(whole(k) / 10real),
{
    lemma_pow1(10);
    let d = (k as i128, 1u32);
    assert(valid(d) && num(d) == whole(k) / 10real);
}

/// Rounding a quotient up to a tenth stays on its side of every tenth.
proof fn lemma_side_of_a_tenth(exact: real, raw: Dec, tenths: Dec, k: int, m: int)
    requires
        rounds(exact, Some(raw)),
        rounds(num(raw) * 10real, Some(tenths)),
        whole(k - 1) < num(tenths) <= whole(k),
        -MAX_MANTISSA <= m <= MAX_MANTISSA,
    ensures
        exact <= whole(m) / 10real ==> k <= m,
        exact >= whole(m) / 10real ==> m <= k,
{
    lemma_tenth(m);
    let y = whole(m) / 10real;
    let x = num(raw) * 10real;
    if exact <= y {
        assert(representable(y));
        assert(num(raw) <= y);
        assert(x <= whole(m));
        assert(num(tenths) <= whole(m));
    }
    if exact >= y {
        assert(representable(y));
        assert(num(raw) >= y);
        assert(x >= whole(m));
        assert(num(tenths) >= whole(m));
    }
}

#[verifier::spinoff_prover]
proof fn lemma_counts_tenths(
    p: PositionView,
    budget: Dec,
    raw: Dec,
    tenths: Dec,
    up: Dec,
    t: Dec,
)
    requires
        tranche(p.seed, p.splits) == Some(budget),
        budget.0 != 0,
        rounds(num(p.cum_spent) / num(budget), Some(raw)),
        rounds(num(raw) * num(dec_of(10)), Some(tenths)),
        up == ceil_of(tenths),
        valid(up),
        rounds(num(up) / num(dec_of(10)), Some(t)),
    ensures
        counts_tenths(p, t),
{
    let exact = num(p.cum_spent) / num(budget);
    lemma_whole_number(10);
    lemma_ceil(tenths);
    let k = up.0 as int;
    lemma_whole_number(k);
    lemma_tenth(k);
    assert(up == dec_of(k));
    assert(num(t) == whole(k) / 10real);
    assert forall|m: int|
        -MAX_MANTISSA <= m <= MAX_MANTISSA && exact <= #[trigger] whole(m) / 10real implies num(t)
        <= whole(m) / 10real by {
        lemma_side_of_a_tenth(exact, raw, tenths, k, m);
    }
    assert forall|m: int|
        -MAX_MANTISSA <= m <= MAX_MANTISSA && exact >= #[trigger] whole(m) / 10real implies num(t)
        >= whole(m) / 10real by {
        lemma_side_of_a_tenth(exact, raw, tenths, k, m);
    }
}

/// Shares and average price after a fill: the weighted average on a buy; on a sell fewer
/// shares, and no average once there are none.
pub open spec fn averaged(shares: u32, avg: Option<Dec>, fill: FillView) -> Option<(
    u32,
    Option<Dec>,
)> {
    match fill.side {
        Side::Buy => if shares + fill.shares > u32::MAX {
            None
        } else if shares + fill.shares == 0 {
            Some((0u32, avg))
        } else {
            match bought_average(shares, avg, fill) {
                Some(new) => Some(
                    ((shares + fill.shares) as u32, if new.0 > 0 {
                        Some(new)
                    } else {
                        None
                    }),
                ),
                None => None,
            }
        },
        Side::Sell => {
            let rest = left_of(shares, fill.shares);
            Some((rest, if rest == 0 {
                None
            } else {
                avg
            }))
        },
    }
}

/// The average price of the shares held and those bought, weighted by their number.
pub open spec fn bought_average(shares: u32, avg: Option<Dec>, fill: FillView) -> Option<Dec> {
    let old_avg = match avg {
        Some(a) => a,
        None => dec_of(0),
    };
    let old_shares = dec_of(shares as int);
    let new_shares = dec_of(fill.shares as int);
    over(
        plus(decimal_product(old_avg, old_shares), decimal_product(fill.price, new_shares)),
        decimal_sum(old_shares, new_shares),
    )
}

/// A ledger after a fill.
pub open spec fn filled(p: PositionView, fill: FillView) -> Option<PositionView> {
    match (averaged(p.shares, p.avg_price, fill), fill.side) {
        (Some((shares, avg_price)), Side::Buy) => match plus(Some(p.cum_spent), value_of(fill)) {
            Some(cum_spent) => Some(PositionView { shares, avg_price, cum_spent, ..p }),
            None => None,
        },
        (Some((shares, avg_price)), Side::Sell) => {
            let cost = match p.avg_price {
                Some(avg) => total_of(avg, fill.shares),
                None => Some(dec_of(0)),
            };
            match plus(Some(p.realized_pnl), minus(value_of(fill), cost)) {
                Some(realized_pnl) => Some(PositionView { shares, avg_price, realized_pnl, ..p }),
                None => None,
            }
        },
        _ => None,
    }
}

/// A ledger at the start of a fresh cycle.
pub open spec fn recycled(p: PositionView, on: Civil) -> PositionView {
    PositionView {
        shares: 0,
        avg_price: None,
        cum_spent: dec_of(0),
        cycle_index: (p.cycle_index + 1) as u32,
        cycle_start: Some(on),
        ..p
    }
}

/// A ledger after a fill, cycle boundaries resolved: the cycle start is stamped on first
/// entry, and a full sell-out banks the cycle. Also whether it did.
pub open spec fn stepped(p: PositionView, fill: FillView, date: Civil) -> Option<(
    PositionView,
    bool,
)> {
    match filled(p, fill) {
        Some(q) => {
            let r = PositionView {
                cycle_start: if q.cycle_start is None && q.shares > 0 {
                    Some(date)
                } else {
                    q.cycle_start
                },
                ..q
            };
            if p.shares > 0 && r.shares == 0 {
                if r.cycle_index == u32::MAX {
                    None
                } else {
                    Some((recycled(r, date), true))
                }
            } else {
                Some((r, false))
            }
        },
        None => None,
    }
}

/// A ledger after a day's fills in order, and whether the day completed a cycle.
pub open spec fn day_applied(p: PositionView, fills: Seq<FillView>, date: Civil) -> Option<(
    PositionView,
    bool,
)>
    decreases fills.len(),
{
    if fills.len() == 0 {
        Some((p, false))
    } else {
        match day_applied(p, fills.drop_last(), date) {
            Some((q, before)) => match stepped(q, fills.last(), date) {
                Some((r, now)) => Some((r, before || now)),
                None => None,
            },
            None => None,
        }
    }
}

/// Whether a fill is of a completed day that is not in the ledger yet.
pub open spec fn is_new(fill: FillView, mark: Option<Civil>, today: Civil) -> bool {
    earlier(fill.at, today) && match mark {
        Some(m) => earlier(m, fill.at),
        None => true,
    }
}

/// The later of a mark and a day.
pub open spec fn later_of(mark: Option<Civil>, day: Civil) -> Option<Civil> {
    match mark {
        Some(m) => if earlier(m, day) {
            Some(day)
        } else {
            mark
        },
        None => Some(day),
    }
}

/// What folding fills into a ledger comes to.
pub struct Reconciled {
    pub position: PositionView,
    pub applied: nat,
    pub cycles: nat,
}

/// A ledger after the fills that are new to it, each on its own day, in order.
pub open spec fn reconciled(
    p: PositionView,
    fills: Seq<FillView>,
    mark: Option<Civil>,
    today: Civil,
) -> Option<Reconciled>
    decreases fills.len(),
{
    if fills.len() == 0 {
        Some(Reconciled { position: p, applied: 0, cycles: 0 })
    } else {
        let fill = fills.last();
        match reconciled(p, fills.drop_last(), mark, today) {
            Some(before) => if is_new(fill, mark, today) {
                match stepped(before.position, fill, fill.at) {
                    Some((q, completed)) => Some(
                        Reconciled {
                            position: PositionView {
                                reconciled_through: later_of(q.reconciled_through, fill.at),
                                ..q
                            },
                            applied: before.applied + 1,
                            cycles: before.cycles + if completed {
                                1nat
                            } else {
                                0nat
                            },
                        },
                    ),
                    None => None,
                }
            } else {
                Some(before)
            },
            None => None,
        }
    }
}

/// What reconciling fills did to a ledger.
#[derive(Clone, Copy, Debug)]
pub struct ReconcileOutcome {
    /// How many fills were folded in.
    pub applied: usize,
    /// How many cycles they completed.
    pub cycles_completed: u32,
    /// The last day whose fills are in the ledger.
    pub through: Option<Date>,
}

impl Position {
    /// A fresh, flat position ready to start cycle 0.
    pub fn new(
        account: AccountId,
        broker: BrokerId,
        ticker: Ticker,
        seed: Money,
        splits: u32,
    ) -> (r: Position)
        ensures
            r@ == (PositionView {
                account: account@,
                broker,
                ticker: ticker@,
                seed: seed@,
                splits: if splits == 0 {
                    1u32
                } else {
                    splits
                },
                shares: 0,
                avg_price: None,
                cum_spent: dec_of(0),
                realized_pnl: dec_of(0),
                cycle_index: 0,
                cycle_start: None,
                reconciled_through: None,
            }),
    {
        Position {
            account,
            broker,
            ticker,
            seed,
            splits: if splits == 0 {
                1
            } else {
                splits
            },
            shares: Shares::zero(),
            avg_price: None,
            cum_spent: Money::zero(),
            realized_pnl: Money::zero(),
            cycle_index: 0,
            cycle_start: None,
            reconciled_through: None,
        }
    }

    /// Per-tranche budget: the seed over the splits.
    pub fn daily_budget(&self) -> (r: Money)
        ensures
            tranche(self@.seed, self@.splits) == Some(r@),
    {
        self.seed.split(self.splits)
    }

    /// The tranche counter: what was spent over the daily budget, rounded up to one decimal
    /// place. It is zero while nothing is spent.
    pub fn t(&self) -> (r: Decimal)
        requires
            tranches(self@.seed, self@.splits, self@.cum_spent) is Some,
        ensures
            tranches(self@.seed, self@.splits, self@.cum_spent) == Some(r@),
            num(self@.cum_spent) == whole(0) ==> num(r@) == whole(0),
            counts_tenths(self@, r@),
    {
        let budget = self.daily_budget().amount();
        if budget.is_zero() {
            proof {
                lemma_whole_number(0);
            }
            return Decimal::zero();
        }
        let spent = self.cum_spent.amount();
        let raw = match spent.checked_div(budget) {
            Some(raw) => raw,
            None => unreached(),
        };
        let ten = Decimal::from_u32(10);
        let tenths = match raw.checked_mul(ten) {
            Some(tenths) => tenths,
            None => unreached(),
        };
        let up = tenths.ceil();
        let r = match up.checked_div(ten) {
            Some(r) => r,
            None => unreached(),
        };
        proof {
            lemma_counts_tenths(self@, budget@, raw@, tenths@, up@, r@);
            lemma_whole_number(0);
            lemma_whole_number(10);
            lemma_ceil(tenths@);
            if num(spent@) == whole(0) {
                lemma_sign(budget@);
                let b = num(budget@);
                assert(0real / b == 0real) by (nonlinear_arith)
                    requires
                        b != 0real,
                ;
                assert(representable(whole(0)));
                assert(num(raw@) == 0real);
                assert(0real * 10real == 0real);
                assert(num(tenths@) == 0real);
                assert(ceil_of(tenths@) == dec_of(0));
                assert(0real / 10real == 0real);
            }
        }
        r
    }

    /// The tranche counter; `None` where it leaves the range.
    pub fn try_t(&self) -> (r: Option<Decimal>)
        ensures
            match r {
                Some(t) => tranches(self@.seed, self@.splits, self@.cum_spent) == Some(t@),
                None => tranches(self@.seed, self@.splits, self@.cum_spent) is None,
            },
            r matches Some(t) ==> counts_tenths(self@, t@),
    {
        let budget = self.daily_budget().amount();
        if !budget.is_zero() {
            let raw = match self.cum_spent.amount().checked_div(budget) {
                Some(raw) => raw,
                None => return None,
            };
            let tenths = match raw.checked_mul(Decimal::from_u32(10)) {
                Some(tenths) => tenths,
                None => return None,
            };
            if tenths.ceil().checked_div(Decimal::from_u32(10)).is_none() {
                return None;
            }
        }
        Some(self.t())
    }

    pub fn is_flat(&self) -> (r: bool)
        ensures
            r == (self@.shares == 0),
    {
        self.shares.is_zero()
    }

    /// Apply a confirmed fill, updating holdings, weighted average, cumulative spend, and
    /// realized profit. A sell that empties the position leaves it flat.
    pub fn apply_fill(&mut self, fill: &Fill)
        requires
            filled(old(self)@, fill@) is Some,
        ensures
            filled(old(self)@, fill@) == Some(final(self)@),
            average_while_held(old(self)@) && fill@.price.0 > 0 ==> average_while_held(
                final(self)@,
            ),
    {
        match fill.side {
            Side::Buy => {
                let (shares, avg_price) = update_average(self.shares, self.avg_price, fill);
                self.shares = shares;
                self.avg_price = avg_price;
                self.cum_spent = self.cum_spent + fill.value();
            },
            Side::Sell => {
                let cost_basis = match self.avg_price {
                    Some(avg) => avg.total(fill.shares),
                    None => Money::zero(),
                };
                self.realized_pnl = self.realized_pnl + (fill.value() - cost_basis);
                let (shares, avg_price) = update_average(self.shares, self.avg_price, fill);
                self.shares = shares;
                self.avg_price = avg_price;
            },
        }
    }

    /// Whether a fill keeps every amount in range.
    pub fn fill_fits(&self, fill: &Fill) -> (r: bool)
        ensures
            r == (filled(self@, fill@) is Some),
    {
        if !average_fits(self.shares, self.avg_price, fill) {
            return false;
        }
        let value = match fill.try_value() {
            Some(v) => v,
            None => return false,
        };
        match fill.side {
            Side::Buy => self.cum_spent.checked_add(value).is_some(),
            Side::Sell => {
                let cost = match self.avg_price {
                    Some(avg) => match avg.try_total(fill.shares) {
                        Some(c) => c,
                        None => return false,
                    },
                    None => Money::zero(),
                };
                match value.checked_sub(cost) {
                    Some(gain) => self.realized_pnl.checked_add(gain).is_some(),
                    None => false,
                }
            },
        }
    }

    /// Apply a confirmed fill if every amount stays in range; otherwise change nothing.
    pub fn try_apply_fill(&mut self, fill: &Fill) -> (r: bool)
        ensures
            r == (filled(old(self)@, fill@) is Some),
            r ==> filled(old(self)@, fill@) == Some(final(self)@),
            !r ==> *final(self) == *old(self),
            average_while_held(old(self)@) && fill@.price.0 > 0 ==> average_while_held(
                final(self)@,
            ),
    {
        if self.fill_fits(fill) {
            self.apply_fill(fill);
            true
        } else {
            false
        }
    }

    /// Apply one fill of a day and resolve the cycle boundary behind it: a sell can empty the
    /// position mid-day and a later buy re-enter it. Returns whether a cycle was completed.
    fn apply_step(&mut self, fill: &Fill, date: Date) -> (r: bool)
        requires
            stepped(old(self)@, fill@, date@) is Some,
        ensures
            stepped(old(self)@, fill@, date@) == Some((final(self)@, r)),
            average_while_held(old(self)@) && fill@.price.0 > 0 ==> average_while_held(
                final(self)@,
            ),
    {
        let had_shares = !self.is_flat();
        self.apply_fill(fill);
        if self.cycle_start.is_none() && !self.is_flat() {
            self.cycle_start = Some(date);
        }
        if had_shares && self.is_flat() {
            self.start_new_cycle(date);
            return true;
        }
        false
    }

    fn try_apply_step(&mut self, fill: &Fill, date: Date) -> (r: Option<bool>)
        ensures
            match r {
                Some(b) => stepped(old(self)@, fill@, date@) == Some((final(self)@, b)),
                None => stepped(old(self)@, fill@, date@) is None,
            },
    {
        if !self.fill_fits(fill) {
            return None;
        }
        let empties = !self.is_flat() && match fill.side {
            Side::Buy => false,
            Side::Sell => self.shares.get() <= fill.shares.get(),
        };
        if empties && self.cycle_index == u32::MAX {
            return None;
        }
        Some(self.apply_step(fill, date))
    }

    /// Apply a trading day's fills in order, then resolve cycle boundaries: stamp the cycle
    /// start on first entry, and on a full sell-out bank the cycle and reset the ladder.
    /// Returns `true` if the day completed a cycle.
    pub fn apply_day(&mut self, fills: &[Fill], date: Date) -> (r: bool)
        requires
            day_applied(old(self)@, fills_of(fills@), date@) is Some,
        ensures
            day_applied(old(self)@, fills_of(fills@), date@) == Some((final(self)@, r)),
            average_while_held(old(self)@) && are_priced(fills_of(fills@)) ==> average_while_held(
                final(self)@,
            ),
    {
        let ghost start = self@;
        let ghost all = fills_of(fills@);
        let mut completed_cycle = false;
        let mut i: usize = 0;
        assert(all.take(0) =~= Seq::<FillView>::empty());
        while i < fills.len()
            invariant
                i <= fills.len(),
                all == fills_of(fills@),
                day_applied(start, all, date@) is Some,
                day_applied(start, all.take(i as int), date@) == Some((self@, completed_cycle)),
                average_while_held(start) && are_priced(all) ==> average_while_held(self@),
            decreases fills.len() - i,
        {
            proof {
                lemma_day_prefix(start, all, date@, i + 1);
                assert(all.take(i + 1).drop_last() =~= all.take(i as int));
                assert(all.take(i + 1).last() == fills[i as int]@);
            }
            if self.apply_step(&fills[i], date) {
                completed_cycle = true;
            }
            i += 1;
        }
        assert(all.take(i as int) =~= all);
        completed_cycle
    }

    /// Apply a trading day's fills if every amount stays in range; otherwise change nothing.
    pub fn try_apply_day(&mut self, fills: &[Fill], date: Date) -> (r: Option<bool>)
        ensures
            match r {
                Some(b) => day_applied(old(self)@, fills_of(fills@), date@) == Some(
                    (final(self)@, b),
                ),
                None => day_applied(old(self)@, fills_of(fills@), date@) is None && *final(self)
                    == *old(self),
            },
            average_while_held(old(self)@) && are_priced(fills_of(fills@)) ==> average_while_held(
                final(self)@,
            ),
    {
        let ghost start = self@;
        let ghost all = fills_of(fills@);
        let mut rehearsal = self.clone();
        let mut any = false;
        let mut i: usize = 0;
        assert(all.take(0) =~= Seq::<FillView>::empty());
        while i < fills.len()
            invariant
                i <= fills.len(),
                all == fills_of(fills@),
                *self == *old(self),
                start == self@,
                day_applied(start, all.take(i as int), date@) == Some((rehearsal@, any)),
            decreases fills.len() - i,
        {
            proof {
                assert(all.take(i + 1).drop_last() =~= all.take(i as int));
                assert(all.take(i + 1).last() == fills[i as int]@);
            }
            match rehearsal.try_apply_step(&fills[i], date) {
                Some(b) => {
                    any = any || b;
                },
                None => {
                    proof {
                        if day_applied(start, all, date@) is Some {
                            lemma_day_prefix(start, all, date@, i + 1);
                        }
                    }
                    return None;
                },
            }
            i += 1;
        }
        assert(all.take(i as int) =~= all);
        Some(self.apply_day(fills, date))
    }

    /// Restart a fresh cycle after a full sell-out. Banked profit and seed carry over; the
    /// ladder state resets.
    pub fn start_new_cycle(&mut self, on: Date)
        requires
            old(self)@.cycle_index < u32::MAX,
        ensures
            final(self)@ == recycled(old(self)@, on@),
    {
        self.shares = Shares::zero();
        self.avg_price = None;
        self.cum_spent = Money::zero();
        self.cycle_index = self.cycle_index + 1;
        self.cycle_start = Some(on);
    }

    /// Fold the fills of completed days that are not in the ledger yet into it, each on its
    /// own day, in the order given. Fills of `today` wait until the day is over.
    pub fn reconcile(&mut self, fills: &[Fill], today: Date) -> (r: ReconcileOutcome)
        requires
            reconciled(old(self)@, fills_of(fills@), old(self)@.reconciled_through, today@) is Some,
        ensures
            reconciled(old(self)@, fills_of(fills@), old(self)@.reconciled_through, today@) == Some(
                Reconciled {
                    position: final(self)@,
                    applied: r.applied as nat,
                    cycles: r.cycles_completed as nat,
                },
            ),
            day_of(r.through) == final(self)@.reconciled_through,
            average_while_held(old(self)@) && are_priced(fills_of(fills@)) ==> average_while_held(
                final(self)@,
            ),
    {
        let ghost start = self@;
        let ghost all = fills_of(fills@);
        let mark = self.reconciled_through;
        let mut applied: usize = 0;
        let mut cycles_completed: u32 = 0;
        let mut i: usize = 0;
        assert(all.take(0) =~= Seq::<FillView>::empty());
        while i < fills.len()
            invariant
                i <= fills.len(),
                all == fills_of(fills@),
                day_of(mark) == start.reconciled_through,
                reconciled(start, all, start.reconciled_through, today@) is Some,
                reconciled(start, all.take(i as int), start.reconciled_through, today@) == Some(
                    Reconciled {
                        position: self@,
                        applied: applied as nat,
                        cycles: cycles_completed as nat,
                    },
                ),
                applied <= i,
                start.cycle_index + cycles_completed == self@.cycle_index,
                average_while_held(start) && are_priced(all) ==> average_while_held(self@),
            decreases fills.len() - i,
        {
            proof {
                lemma_reconciled_prefix(start, all, start.reconciled_through, today@, i + 1);
                assert(all.take(i + 1).drop_last() =~= all.take(i as int));
                assert(all.take(i + 1).last() == fills[i as int]@);
            }
            let fill = fills[i];
            if is_unseen(&fill, mark, today) {
                if self.apply_step(&fill, fill.at) {
                    cycles_completed = cycles_completed + 1;
                }
                let advances = match self.reconciled_through {
                    Some(through) => through.is_before(&fill.at),
                    None => true,
                };
                if advances {
                    self.reconciled_through = Some(fill.at);
                }
                applied = applied + 1;
            }
            i += 1;
        }
        assert(all.take(i as int) =~= all);
        ReconcileOutcome { applied, cycles_completed, through: self.reconciled_through }
    }

    /// Fold in the fills that are new if every amount stays in range; otherwise change
    /// nothing.
    pub fn try_reconcile(&mut self, fills: &[Fill], today: Date) -> (r: Option<ReconcileOutcome>)
        ensures
            match r {
                Some(o) => reconciled(
                    old(self)@,
                    fills_of(fills@),
                    old(self)@.reconciled_through,
                    today@,
                ) == Some(
                    Reconciled {
                        position: final(self)@,
                        applied: o.applied as nat,
                        cycles: o.cycles_completed as nat,
                    },
                ) && day_of(o.through) == final(self)@.reconciled_through,
                None => reconciled(
                    old(self)@,
                    fills_of(fills@),
                    old(self)@.reconciled_through,
                    today@,
                ) is None && *final(self) == *old(self),
            },
            average_while_held(old(self)@) && are_priced(fills_of(fills@)) ==> average_while_held(
                final(self)@,
            ),
    {
        let ghost start = self@;
        let ghost all = fills_of(fills@);
        let mark = self.reconciled_through;
        let mut rehearsal = self.clone();
        let mut i: usize = 0;
        let ghost mut applied: nat = 0;
        let ghost mut cycles: nat = 0;
        assert(all.take(0) =~= Seq::<FillView>::empty());
        while i < fills.len()
            invariant
                i <= fills.len(),
                all == fills_of(fills@),
                *self == *old(self),
                start == self@,
                day_of(mark) == start.reconciled_through,
                reconciled(start, all.take(i as int), start.reconciled_through, today@) == Some(
                    Reconciled { position: rehearsal@, applied, cycles },
                ),
            decreases fills.len() - i,
        {
            proof {
                assert(all.take(i + 1).drop_last() =~= all.take(i as int));
                assert(all.take(i + 1).last() == fills[i as int]@);
            }
            let fill = fills[i];
            if is_unseen(&fill, mark, today) {
                match rehearsal.try_apply_step(&fill, fill.at) {
                    Some(completed) => {
                        proof {
                            applied = applied + 1;
                            cycles = cycles + if completed {
                                1nat
                            } else {
                                0nat
                            };
                        }
                    },
                    None => {
                        proof {
                            if reconciled(start, all, start.reconciled_through, today@) is Some {
                                lemma_reconciled_prefix(
                                    start,
                                    all,
                                    start.reconciled_through,
                                    today@,
                                    i + 1,
                                );
                            }
                        }
                        return None;
                    },
                }
                let advances = match rehearsal.reconciled_through {
                    Some(through) => through.is_before(&fill.at),
                    None => true,
                };
                if advances {
                    rehearsal.reconciled_through = Some(fill.at);
                }
            }
            i += 1;
        }
        assert(all.take(i as int) =~= all);
        Some(self.reconcile(fills, today))
    }
}

impl Clone for Position {
    fn clone(&self) -> (r: Position)
        ensures
            r@ == self@,
    {
        Position {
            account: self.account.clone(),
            broker: self.broker,
            ticker: self.ticker.clone(),
            seed: self.seed,
            splits: self.splits,
            shares: self.shares,
            avg_price: self.avg_price,
            cum_spent: self.cum_spent,
            realized_pnl: self.realized_pnl,
            cycle_index: self.cycle_index,
            cycle_start: self.cycle_start,
            reconciled_through: self.reconciled_through,
        }
    }
}

/// Whether a fill is of a completed day that is not in the ledger yet.
fn is_unseen(fill: &Fill, mark: Option<Date>, today: Date) -> (r: bool)
    ensures
        r == is_new(fill@, day_of(mark), today@),
{
    let unmarked = match mark {
        Some(m) => m.is_before(&fill.at),
        None => true,
    };
    fill.at.is_before(&today) && unmarked
}

proof fn lemma_day_prefix(p: PositionView, fills: Seq<FillView>, date: Civil, n: int)
    requires
        0 <= n <= fills.len(),
        day_applied(p, fills, date) is Some,
    ensures
        day_applied(p, fills.take(n), date) is Some,
    decreases fills.len() - n,
{
    if n == fills.len() {
        assert(fills.take(n) =~= fills);
    } else {
        lemma_day_prefix(p, fills, date, n + 1);
        assert(fills.take(n + 1).drop_last() =~= fills.take(n));
    }
}

proof fn lemma_reconciled_prefix(
    p: PositionView,
    fills: Seq<FillView>,
    mark: Option<Civil>,
    today: Civil,
    n: int,
)
    requires
        0 <= n <= fills.len(),
        reconciled(p, fills, mark, today) is Some,
    ensures
        reconciled(p, fills.take(n), mark, today) is Some,
    decreases fills.len() - n,
{
    if n == fills.len() {
        assert(fills.take(n) =~= fills);
    } else {
        lemma_reconciled_prefix(p, fills, mark, today, n + 1);
        assert(fills.take(n + 1).drop_last() =~= fills.take(n));
    }
}

/// A broker-reported holding: what the account owns right now, independent of any strategy
/// state.
#[derive(Debug)]
pub struct Holding {
    pub ticker: Ticker,
    pub shares: Shares,
    pub avg_price: Option<Price>,
}

/// The model of a [`Holding`].
pub struct HoldingView {
    pub ticker: Seq<char>,
    pub shares: u32,
    pub avg_price: Option<Dec>,
}

impl View for Holding {
    type V = HoldingView;

    open spec fn view(&self) -> HoldingView {
        HoldingView {
            ticker: self.ticker@,
            shares: self.shares@,
            avg_price: price_of(self.avg_price),
        }
    }
}

/// A holding after a fill.
pub open spec fn holding_after(h: HoldingView, fill: FillView) -> Option<HoldingView> {
    match averaged(h.shares, h.avg_price, fill) {
        Some((shares, avg_price)) => Some(HoldingView { shares, avg_price, ..h }),
        None => None,
    }
}

impl Holding {
    pub fn empty(ticker: Ticker) -> (r: Holding)
        ensures
            r@ == (HoldingView { ticker: ticker@, shares: 0, avg_price: None }),
    {
        Holding { ticker, shares: Shares::zero(), avg_price: None }
    }

    /// Apply a fill to the holding (weighted average on buy; reduce on sell).
    pub fn apply_fill(&mut self, fill: &Fill)
        requires
            holding_after(old(self)@, fill@) is Some,
        ensures
            holding_after(old(self)@, fill@) == Some(final(self)@),
            is_average_of(old(self)@.avg_price, old(self)@.shares) && fill@.price.0 > 0
                ==> is_average_of(final(self)@.avg_price, final(self)@.shares),
    {
        let (shares, avg_price) = update_average(self.shares, self.avg_price, fill);
        self.shares = shares;
        self.avg_price = avg_price;
    }

    /// Apply a fill if every amount stays in range; otherwise change nothing.
    pub fn try_apply_fill(&mut self, fill: &Fill) -> (r: bool)
        ensures
            r == (holding_after(old(self)@, fill@) is Some),
            r ==> holding_after(old(self)@, fill@) == Some(final(self)@),
            !r ==> *final(self) == *old(self),
    {
        if average_fits(self.shares, self.avg_price, fill) {
            self.apply_fill(fill);
            true
        } else {
            false
        }
    }
}

impl Clone for Holding {
    fn clone(&self) -> (r: Holding)
        ensures
            r@ == self@,
    {
        Holding {
            ticker: self.ticker.clone(),
            shares: self.shares,
            avg_price: self.avg_price,
        }
    }
}

/// Shares and average price after a fill. Shared by [`Position`] and [`Holding`] so that the
/// averaging rule lives in one place.
fn update_average(shares: Shares, avg_price: Option<Price>, fill: &Fill) -> (r: (
    Shares,
    Option<Price>,
))
    requires
        averaged(shares@, price_of(avg_price), fill@) is Some,
    ensures
        averaged(shares@, price_of(avg_price), fill@) == Some((r.0@, price_of(r.1))),
        is_average_of(price_of(avg_price), shares@) && fill@.price.0 > 0 ==> is_average_of(
            price_of(r.1),
            r.0@,
        ),
{
    match fill.side {
        Side::Buy => {
            let old_shares = Decimal::from_u32(shares.get());
            let add_shares = Decimal::from_u32(fill.shares.get());
            let new_shares = whole_sum(shares, fill.shares);
            let mut avg = avg_price;
            if !new_shares.is_zero() {
                let old_avg = match avg_price {
                    Some(a) => a.value(),
                    None => Decimal::zero(),
                };
                let weighted = old_avg * old_shares + fill.price.value() * add_shares;
                avg = Price::new(weighted / new_shares);
                proof {
                    if is_average_of(price_of(avg_price), shares@) && fill@.price.0 > 0 {
                        assert(average_rounds(shares@, price_of(avg_price), fill@));
                        lemma_average_is_above_zero(shares@, price_of(avg_price), fill@);
                    }
                }
            }
            (shares + fill.shares, avg)
        },
        Side::Sell => {
            let rest = shares - fill.shares;
            if rest.is_zero() {
                (rest, None)
            } else {
                (rest, avg_price)
            }
        },
    }
}

/// The sum of two share counts as a decimal.
fn whole_sum(a: Shares, b: Shares) -> (r: Decimal)
    ensures
        decimal_sum(dec_of(a@ as int), dec_of(b@ as int)) == Some(r@),
        rounds(num(dec_of(a@ as int)) + num(dec_of(b@ as int)), Some(r@)),
        r@.0 == 0 <==> a@ + b@ == 0,
{
    proof {
        lemma_whole_number(a@ as int);
        lemma_whole_number(b@ as int);
        lemma_whole_number(a@ + b@);
        assert(representable(whole(a@ + b@)));
    }
    match Decimal::from_u32(a.get()).checked_add(Decimal::from_u32(b.get())) {
        Some(d) => {
            proof {
                lemma_sign(d@);
            }
            d
        },
        None => unreached(),
    }
}

fn average_fits(shares: Shares, avg_price: Option<Price>, fill: &Fill) -> (r: bool)
    ensures
        r == (averaged(shares@, price_of(avg_price), fill@) is Some),
{
    match fill.side {
        Side::Buy => {
            if shares.checked_add(fill.shares).is_none() {
                return false;
            }
            let new_shares = whole_sum(shares, fill.shares);
            if new_shares.is_zero() {
                return true;
            }
            let old_avg = match avg_price {
                Some(a) => a.value(),
                None => Decimal::zero(),
            };
            let held = match old_avg.checked_mul(Decimal::from_u32(shares.get())) {
                Some(d) => d,
                None => return false,
            };
            let bought = match fill.price.value().checked_mul(
                Decimal::from_u32(fill.shares.get()),
            ) {
                Some(d) => d,
                None => return false,
            };
            match held.checked_add(bought) {
                Some(weighted) => weighted.checked_div(new_shares).is_some(),
                None => false,
            }
        },
        Side::Sell => true,
    }
}

/// Whether two ledgers are of the same position: a fill changes neither whose it is nor how
/// it is funded.
pub open spec fn same_position(a: PositionView, b: PositionView) -> bool {
    &&& a.account == b.account
    &&& a.broker == b.broker
    &&& a.ticker == b.ticker
    &&& a.seed == b.seed
    &&& a.splits == b.splits
}

/// Whether there is an average price exactly while shares are held, and it is above zero.
pub open spec fn is_average_of(avg: Option<Dec>, shares: u32) -> bool {
    &&& avg is None <==> shares == 0
    &&& avg matches Some(a) ==> a.0 > 0
}

/// Whether there is an average price exactly while shares are held, and it is above zero.
pub open spec fn average_while_held(p: PositionView) -> bool {
    is_average_of(p.avg_price, p.shares)
}

/// Whether fills are all at prices above zero.
pub open spec fn are_priced(fills: Seq<FillView>) -> bool {
    forall|i: int| 0 <= i < fills.len() ==> (#[trigger] fills[i]).price.0 > 0
}

/// Whether the four operations behind a new average round as every operation on decimals does.
pub open spec fn average_rounds(shares: u32, avg: Option<Dec>, fill: FillView) -> bool {
    let old_avg = match avg {
        Some(a) => a,
        None => dec_of(0),
    };
    let old_shares = dec_of(shares as int);
    let new_shares = dec_of(fill.shares as int);
    let held = decimal_product(old_avg, old_shares);
    let bought = decimal_product(fill.price, new_shares);
    let weighted = plus(held, bought);
    let count = decimal_sum(old_shares, new_shares);
    &&& valid(old_avg)
    &&& valid(fill.price)
    &&& rounds(num(old_avg) * num(old_shares), held)
    &&& rounds(num(fill.price) * num(new_shares), bought)
    &&& held is Some && bought is Some ==> rounds(num(held->0) + num(bought->0), weighted)
    &&& rounds(num(old_shares) + num(new_shares), count)
    &&& weighted is Some && count is Some && (count->0).0 != 0 ==> rounds(
        num(weighted->0) / num(count->0),
        over(weighted, count),
    )
}

/// What a number of shares cost is at least that number of the smallest decimals.
proof fn lemma_cost_is_no_dust(price: Dec, shares: u32, total: Option<Dec>)
    requires
        valid(price),
        price.0 > 0 || (price.0 == 0 && shares == 0),
        rounds(num(price) * num(dec_of(shares as int)), total),
        total is Some,
    ensures
        num(least(shares)) <= num(total->0),
{
    lemma_whole_number(shares as int);
    lemma_least(shares);
    lemma_sign(price);
    if price.0 > 0 {
        lemma_least_is_least(price);
    }
    let u = num(least(1));
    let x = num(price);
    let n = whole(shares as int);
    assert(n * u <= x * n) by (nonlinear_arith)
        requires
            n >= 0real,
            u <= x || n == 0real,
    ;
}

/// A new average of prices above zero is above zero.
proof fn lemma_average_is_above_zero(shares: u32, avg: Option<Dec>, fill: FillView)
    requires
        average_rounds(shares, avg, fill),
        is_average_of(avg, shares),
        fill.price.0 > 0,
        0 < shares + fill.shares <= u32::MAX,
        bought_average(shares, avg, fill) is Some,
    ensures
        (bought_average(shares, avg, fill)->0).0 > 0,
{
    let old_avg = match avg {
        Some(a) => a,
        None => dec_of(0),
    };
    let old_shares = dec_of(shares as int);
    let new_shares = dec_of(fill.shares as int);
    let held = decimal_product(old_avg, old_shares);
    let bought = decimal_product(fill.price, new_shares);
    let weighted = plus(held, bought);
    let count = decimal_sum(old_shares, new_shares);
    let all = (shares + fill.shares) as u32;
    lemma_cost_is_no_dust(old_avg, shares, held);
    lemma_cost_is_no_dust(fill.price, fill.shares, bought);
    lemma_least(shares);
    lemma_least(fill.shares);
    lemma_least(all);
    lemma_least(1);
    lemma_whole_number(shares as int);
    lemma_whole_number(fill.shares as int);
    lemma_whole_number(all as int);
    let u = num(least(1));
    let n = whole(all as int);
    assert(num(least(shares)) + num(least(fill.shares)) == num(least(all))) by (nonlinear_arith)
        requires
            num(least(shares)) == whole(shares as int) * u,
            num(least(fill.shares)) == whole(fill.shares as int) * u,
            num(least(all)) == n * u,
            n == whole(shares as int) + whole(fill.shares as int),
    ;
    assert(representable(whole(all as int)));
    assert(num(count->0) == n);
    lemma_sign(count->0);
    let w = num(weighted->0);
    assert(n * u <= w);
    assert(u <= w / n) by (nonlinear_arith)
        requires
            n * u <= w,
            n >= 1real,
    ;
    lemma_sign(bought_average(shares, avg, fill)->0);
}

/// A fill at a price above zero keeps the average price exactly while shares are held, and
/// above zero.
pub proof fn law_average_while_held(p: PositionView, fill: FillView, q: PositionView)
    requires
        average_while_held(p),
        fill.price.0 > 0,
        average_rounds(p.shares, p.avg_price, fill),
        filled(p, fill) == Some(q),
    ensures
        average_while_held(q),
        same_position(p, q),
        q.cycle_index == p.cycle_index,
{
    if fill.side == Side::Buy && p.shares + fill.shares > 0 {
        lemma_average_is_above_zero(p.shares, p.avg_price, fill);
    }
}

/// A sell-out banks the cycle: the ladder is reset, the cycle counted, the day stamped, and
/// the profit kept.
pub proof fn law_sell_out_banks_the_cycle(
    p: PositionView,
    fill: FillView,
    date: Civil,
    q: PositionView,
    completed: bool,
)
    requires
        stepped(p, fill, date) == Some((q, completed)),
    ensures
        completed <==> fill.side == Side::Sell && 0 < p.shares <= fill.shares,
        completed ==> q == recycled(filled(p, fill)->0, date),
        completed ==> q.realized_pnl == filled(p, fill)->0.realized_pnl,
        completed ==> q.shares == 0 && q.avg_price is None && q.cum_spent == (0i128, 0u32)
            && q.cycle_start == Some(date),
        !completed ==> q.shares == filled(p, fill)->0.shares && q.avg_price == filled(
            p,
            fill,
        )->0.avg_price && q.cum_spent == filled(p, fill)->0.cum_spent && q.realized_pnl == filled(
            p,
            fill,
        )->0.realized_pnl,
        !completed ==> q.cycle_start == if p.cycle_start is None && q.shares > 0 {
            Some(date)
        } else {
            p.cycle_start
        },
        q.reconciled_through == p.reconciled_through,
        q.cycle_index == p.cycle_index + if completed {
            1int
        } else {
            0int
        },
        same_position(p, q),
{
}

/// Reconciling counts the cycles that it completes, and changes no position into another.
pub proof fn law_reconcile_counts_cycles(
    p: PositionView,
    fills: Seq<FillView>,
    mark: Option<Civil>,
    today: Civil,
)
    requires
        reconciled(p, fills, mark, today) is Some,
    ensures
        reconciled(p, fills, mark, today)->0.position.cycle_index == p.cycle_index + reconciled(
            p,
            fills,
            mark,
            today,
        )->0.cycles,
        same_position(p, reconciled(p, fills, mark, today)->0.position),
        reconciled(p, fills, mark, today)->0.applied <= fills.len(),
    decreases fills.len(),
{
    if fills.len() > 0 {
        law_reconcile_counts_cycles(p, fills.drop_last(), mark, today);
        let before = reconciled(p, fills.drop_last(), mark, today)->0;
        let fill = fills.last();
        if is_new(fill, mark, today) {
            let (q, completed) = stepped(before.position, fill, fill.at)->0;
            law_sell_out_banks_the_cycle(before.position, fill, fill.at, q, completed);
        }
    }
}

/// After reconciling, no fill that it was given is new any more.
proof fn lemma_mark_passes_all(
    p: PositionView,
    fills: Seq<FillView>,
    mark: Option<Civil>,
    today: Civil,
    i: int,
)
    requires
        p.reconciled_through == mark,
        reconciled(p, fills, mark, today) is Some,
    ensures
        ({
            let after = reconciled(p, fills, mark, today)->0.position.reconciled_through;
            &&& mark is Some ==> after is Some && !earlier(after->0, mark->0)
            &&& 0 <= i < fills.len() ==> !is_new(fills[i], after, today)
            &&& 0 <= i < fills.len() && is_new(fills[i], mark, today) ==> after is Some && !earlier(
                after->0,
                fills[i].at,
            )
        }),
    decreases fills.len(),
{
    if fills.len() > 0 {
        lemma_mark_passes_all(p, fills.drop_last(), mark, today, i);
    }
}

proof fn lemma_nothing_new(
    p: PositionView,
    fills: Seq<FillView>,
    mark: Option<Civil>,
    today: Civil,
)
    requires
        forall|i: int| 0 <= i < fills.len() ==> !is_new(#[trigger] fills[i], mark, today),
    ensures
        reconciled(p, fills, mark, today) == Some(
            Reconciled { position: p, applied: 0, cycles: 0 },
        ),
    decreases fills.len(),
{
    if fills.len() > 0 {
        let front = fills.drop_last();
        assert forall|i: int| 0 <= i < front.len() implies !is_new(
            #[trigger] front[i],
            mark,
            today,
        ) by {
            assert(front[i] == fills[i]);
        }
        lemma_nothing_new(p, front, mark, today);
    }
}

/// Reconciling the same fills again folds in nothing and changes nothing, so a rerun never
/// counts a fill twice.
pub proof fn law_reconcile_is_idempotent(p: PositionView, fills: Seq<FillView>, today: Civil)
    requires
        reconciled(p, fills, p.reconciled_through, today) is Some,
    ensures
        ({
            let q = reconciled(p, fills, p.reconciled_through, today)->0.position;
            reconciled(q, fills, q.reconciled_through, today) == Some(
                Reconciled { position: q, applied: 0, cycles: 0 },
            )
        }),
{
    let q = reconciled(p, fills, p.reconciled_through, today)->0.position;
    assert forall|i: int| 0 <= i < fills.len() implies !is_new(
        #[trigger] fills[i],
        q.reconciled_through,
        today,
    ) by {
        lemma_mark_passes_all(p, fills, p.reconciled_through, today, i);
    }
    lemma_nothing_new(q, fills, q.reconciled_through, today);
}

/// A fill that was folded in is never new again, whatever day it is then, and the mark never
/// goes back: no fill is counted twice.
pub proof fn law_no_fill_counts_twice(
    p: PositionView,
    fills: Seq<FillView>,
    today: Civil,
    i: int,
    later: Civil,
)
    requires
        reconciled(p, fills, p.reconciled_through, today) is Some,
        0 <= i < fills.len(),
        is_new(fills[i], p.reconciled_through, today),
    ensures
        ({
            let q = reconciled(p, fills, p.reconciled_through, today)->0.position;
            &&& !is_new(fills[i], q.reconciled_through, later)
            &&& q.reconciled_through is Some
            &&& p.reconciled_through is Some ==> !earlier(
                q.reconciled_through->0,
                p.reconciled_through->0,
            )
        }),
{
    lemma_mark_passes_all(p, fills, p.reconciled_through, today, i);
}

/// Fills of today or later are left for another day.
pub proof fn law_todays_fills_wait(p: PositionView, fills: Seq<FillView>, today: Civil)
    requires
        forall|i: int| 0 <= i < fills.len() ==> !earlier((#[trigger] fills[i]).at, today),
    ensures
        reconciled(p, fills, p.reconciled_through, today) == Some(
            Reconciled { position: p, applied: 0, cycles: 0 },
        ),
{
    lemma_nothing_new(p, fills, p.reconciled_through, today);
}

/// What a fill does to each side of the books. A buy adds its shares and its value to what
/// was spent and leaves the banked profit alone. A sell takes its shares away, down to none,
/// banks the difference between its value and what those shares cost on average, and leaves
/// what was spent alone. Nothing else changes.
pub proof fn law_a_fill_touches_its_own_books(p: PositionView, fill: FillView, q: PositionView)
    requires
        filled(p, fill) == Some(q),
    ensures
        fill.side == Side::Buy ==> q.shares == p.shares + fill.shares,
        fill.side == Side::Buy ==> decimal_product(fill.price, (fill.shares as i128, 0u32)) is Some
            && decimal_sum(
            p.cum_spent,
            decimal_product(fill.price, (fill.shares as i128, 0u32))->0,
        ) == Some(q.cum_spent),
        fill.side == Side::Buy ==> q.realized_pnl == p.realized_pnl,
        fill.side == Side::Sell ==> q.shares == if fill.shares >= p.shares {
            0
        } else {
            p.shares - fill.shares
        },
        fill.side == Side::Sell ==> q.cum_spent == p.cum_spent,
        fill.side == Side::Sell && q.shares > 0 ==> q.avg_price == p.avg_price,
        fill.side == Side::Sell && q.shares == 0 ==> q.avg_price is None,
        fill.side == Side::Sell ==> ({
            let value = decimal_product(fill.price, (fill.shares as i128, 0u32));
            let cost = match p.avg_price {
                Some(avg) => decimal_product(avg, (fill.shares as i128, 0u32)),
                None => Some((0i128, 0u32)),
            };
            &&& value is Some && cost is Some
            &&& decimal_difference(value->0, cost->0) is Some
            &&& decimal_sum(p.realized_pnl, decimal_difference(value->0, cost->0)->0) == Some(
                q.realized_pnl,
            )
        }),
        q == (PositionView {
            shares: q.shares,
            avg_price: q.avg_price,
            cum_spent: q.cum_spent,
            realized_pnl: q.realized_pnl,
            ..p
        }),
{
}

/// A sell that leaves shares held leaves what was spent, and so the tranche counter, as it was.
pub proof fn law_a_partial_sell_keeps_the_counter(
    p: PositionView,
    fill: FillView,
    date: Civil,
    q: PositionView,
    completed: bool,
)
    requires
        stepped(p, fill, date) == Some((q, completed)),
        fill.side == Side::Sell,
        fill.shares < p.shares,
    ensures
        !completed,
        q.cum_spent == p.cum_spent,
        tranches(q.seed, q.splits, q.cum_spent) == tranches(p.seed, p.splits, p.cum_spent),
{
}

/// The average after a buy is what is held and what is bought, each at its price, over the
/// number of both: for a position and for a holding alike. A sell changes the average of what
/// is left in neither.
pub proof fn law_averages_are_weighted(p: PositionView, h: HoldingView, fill: FillView)
    requires
        h.shares == p.shares,
        h.avg_price == p.avg_price,
    ensures
        filled(p, fill) is Some ==> holding_after(h, fill) == Some(
            HoldingView {
                ticker: h.ticker,
                shares: filled(p, fill)->0.shares,
                avg_price: filled(p, fill)->0.avg_price,
            },
        ),
        fill.side == Side::Buy && fill.shares + p.shares > 0 && holding_after(h, fill) is Some
            ==> ({
            let held = decimal_product(
                if p.avg_price is Some {
                    p.avg_price->0
                } else {
                    (0i128, 0u32)
                },
                (p.shares as i128, 0u32),
            );
            let bought = decimal_product(fill.price, (fill.shares as i128, 0u32));
            let count = decimal_sum((p.shares as i128, 0u32), (fill.shares as i128, 0u32));
            let average = decimal_quotient(decimal_sum(held->0, bought->0)->0, count->0);
            &&& average is Some
            &&& holding_after(h, fill)->0.avg_price == if (average->0).0 > 0 {
                average
            } else {
                None::<Dec>
            }
        }),
{
}

/// What the buys among fills add up to, from an amount on.
pub open spec fn spent_on(start: Option<Dec>, fills: Seq<FillView>) -> Option<Dec>
    decreases fills.len(),
{
    if fills.len() == 0 {
        start
    } else {
        match (spent_on(start, fills.drop_last()), fills.last().side) {
            (Some(before), Side::Buy) => match decimal_product(
                fills.last().price,
                (fills.last().shares as i128, 0u32),
            ) {
                Some(value) => decimal_sum(before, value),
                None => None,
            },
            (before, _) => before,
        }
    }
}

/// Within a cycle what was spent grows by the values of the buys, and by nothing else.
pub proof fn law_spend_is_the_sum_of_the_buys(
    p: PositionView,
    fills: Seq<FillView>,
    date: Civil,
    q: PositionView,
)
    requires
        day_applied(p, fills, date) == Some((q, false)),
    ensures
        spent_on(Some(p.cum_spent), fills) == Some(q.cum_spent),
    decreases fills.len(),
{
    if fills.len() > 0 {
        let (before, _) = day_applied(p, fills.drop_last(), date)->0;
        law_spend_is_the_sum_of_the_buys(p, fills.drop_last(), date, before);
        law_sell_out_banks_the_cycle(before, fills.last(), date, q, false);
        law_a_fill_touches_its_own_books(
            before,
            fills.last(),
            filled(before, fills.last())->0,
        );
    }
}

/// A ledger after fills, each posted on its own day, whatever its mark.
pub open spec fn posted(p: PositionView, fills: Seq<FillView>) -> Option<PositionView>
    decreases fills.len(),
{
    if fills.len() == 0 {
        Some(p)
    } else {
        match posted(p, fills.drop_last()) {
            Some(q) => match stepped(q, fills.last(), fills.last().at) {
                Some((r, _)) => Some(r),
                None => None,
            },
            None => None,
        }
    }
}

/// The fills that are due: those dated before today and after the mark.
pub open spec fn due_fills(
    fills: Seq<FillView>,
    mark: Option<Civil>,
    today: Civil,
) -> Seq<FillView> {
    fills.filter(
        |f: FillView| earlier(f.at, today) && (mark is None || earlier(mark->0, f.at)),
    )
}

proof fn lemma_due_step(fills: Seq<FillView>, mark: Option<Civil>, today: Civil)
    requires
        fills.len() > 0,
    ensures
        due_fills(fills, mark, today) == if earlier(fills.last().at, today) && (mark is None
            || earlier(mark->0, fills.last().at)) {
            due_fills(fills.drop_last(), mark, today).push(fills.last())
        } else {
            due_fills(fills.drop_last(), mark, today)
        },
{
    reveal(Seq::filter);
}

/// Reconciling folds in every fill that is dated before today and after the mark that the
/// ledger had when it began, and no other: their number is reported, and the ledger is what
/// posting exactly them in order makes of it. In particular fills of one day are folded in all
/// or not at all. The mark moves to the latest of their days, and stays where there is none.
pub proof fn law_reconcile_folds_in_every_due_fill(
    p: PositionView,
    fills: Seq<FillView>,
    mark: Option<Civil>,
    today: Civil,
)
    requires
        reconciled(p, fills, mark, today) is Some,
    ensures
        ({
            let due = due_fills(fills, mark, today);
            let r = reconciled(p, fills, mark, today)->0;
            &&& r.applied == due.len()
            &&& posted(p, due) is Some
            &&& r.position == (PositionView {
                reconciled_through: r.position.reconciled_through,
                ..posted(p, due)->0
            })
            &&& posted(p, due)->0.reconciled_through == p.reconciled_through
            &&& due.len() == 0 ==> r.position.reconciled_through == p.reconciled_through
            &&& due.len() > 0 ==> r.position.reconciled_through is Some
            &&& forall|i: int|
                0 <= i < due.len() ==> !earlier(
                    r.position.reconciled_through->0,
                    (#[trigger] due[i]).at,
                )
            &&& r.position.reconciled_through == p.reconciled_through || exists|i: int|
                0 <= i < due.len() && r.position.reconciled_through == Some(
                    (#[trigger] due[i]).at,
                )
        }),
    decreases fills.len(),
{
    reveal(Seq::filter);
    if fills.len() > 0 {
        let front = fills.drop_last();
        let fill = fills.last();
        law_reconcile_folds_in_every_due_fill(p, front, mark, today);
        lemma_due_step(fills, mark, today);
        let before = reconciled(p, front, mark, today)->0;
        let old_due = due_fills(front, mark, today);
        let due = due_fills(fills, mark, today);
        if is_new(fill, mark, today) {
            assert(due == old_due.push(fill));
            assert(due.drop_last() =~= old_due);
            let (q, completed) = stepped(before.position, fill, fill.at)->0;
            law_sell_out_banks_the_cycle(before.position, fill, fill.at, q, completed);
            lemma_mark_is_carried(before.position, posted(p, old_due)->0, fill, fill.at);
            let r = reconciled(p, fills, mark, today)->0;
            let after = r.position.reconciled_through;
            assert(due[due.len() - 1] == fill);
            assert forall|i: int| 0 <= i < due.len() implies !earlier(
                after->0,
                (#[trigger] due[i]).at,
            ) by {
                if i < old_due.len() {
                    assert(due[i] == old_due[i]);
                }
            }
            if after != p.reconciled_through && after != Some(fill.at) {
                let i = choose|i: int|
                    0 <= i < old_due.len() && before.position.reconciled_through == Some(
                        (#[trigger] old_due[i]).at,
                    );
                assert(due[i] == old_due[i]);
            }
        }
    }
}

/// A step does the same to two ledgers that differ in their marks alone.
proof fn lemma_mark_is_carried(a: PositionView, b: PositionView, fill: FillView, date: Civil)
    requires
        a == (PositionView { reconciled_through: a.reconciled_through, ..b }),
        stepped(a, fill, date) is Some,
    ensures
        stepped(b, fill, date) is Some,
        (stepped(a, fill, date)->0).0 == (PositionView {
            reconciled_through: a.reconciled_through,
            ..(stepped(b, fill, date)->0).0
        }),
        (stepped(b, fill, date)->0).0.reconciled_through == b.reconciled_through,
{
}

/// Fills of one completed day that is not in the ledger yet are folded in as that day is
/// applied: all of them, with the mark on that day.
pub proof fn law_a_day_reconciles_as_it_is_applied(
    p: PositionView,
    fills: Seq<FillView>,
    day: Civil,
    today: Civil,
)
    requires
        fills.len() > 0,
        forall|i: int| 0 <= i < fills.len() ==> (#[trigger] fills[i]).at == day,
        earlier(day, today),
        p.reconciled_through is None || earlier(p.reconciled_through->0, day),
        day_applied(p, fills, day) is Some,
    ensures
        reconciled(p, fills, p.reconciled_through, today) is Some,
        ({
            let r = reconciled(p, fills, p.reconciled_through, today)->0;
            &&& r.applied == fills.len()
            &&& r.position == (PositionView {
                reconciled_through: Some(day),
                ..(day_applied(p, fills, day)->0).0
            })
        }),
    decreases fills.len(),
{
    let front = fills.drop_last();
    let fill = fills[fills.len() - 1];
    assert(fill == fills.last());
    assert forall|i: int| 0 <= i < front.len() implies (#[trigger] front[i]).at == day by {
        assert(front[i] == fills[i]);
    }
    if front.len() > 0 {
        law_a_day_reconciles_as_it_is_applied(p, front, day, today);
        let before = reconciled(p, front, p.reconciled_through, today)->0;
        let plain = (day_applied(p, front, day)->0).0;
        lemma_mark_is_carried(plain, before.position, fill, day);
        lemma_mark_is_carried(before.position, plain, fill, day);
    }
}

/// A fill is refused only where an amount leaves the range: a buy where its shares, its value,
/// what was spent or the new average does, a sell where its value, its cost or the profit does.
pub proof fn law_fills_in_range_are_posted(p: PositionView, fill: FillView)
    ensures
        fill.side == Side::Buy ==> (filled(p, fill) is Some <==> {
            let value = decimal_product(fill.price, (fill.shares as i128, 0u32));
            &&& p.shares + fill.shares <= u32::MAX
            &&& p.shares + fill.shares > 0 ==> bought_average(p.shares, p.avg_price, fill) is Some
            &&& value is Some && decimal_sum(p.cum_spent, value->0) is Some
        }),
        fill.side == Side::Sell ==> (filled(p, fill) is Some <==> {
            let value = decimal_product(fill.price, (fill.shares as i128, 0u32));
            let cost = match p.avg_price {
                Some(avg) => decimal_product(avg, (fill.shares as i128, 0u32)),
                None => Some((0i128, 0u32)),
            };
            let gain = decimal_difference(value->0, cost->0);
            &&& value is Some && cost is Some && gain is Some
            &&& decimal_sum(p.realized_pnl, gain->0) is Some
        }),
        forall|date: Civil| #[trigger]
            stepped(p, fill, date) is Some <==> filled(p, fill) is Some && !(fill.side == Side::Sell
                && 0 < p.shares <= fill.shares && p.cycle_index == u32::MAX),
{
}

/// Reconciling is refused only where posting the due fills is.
pub proof fn law_due_fills_that_can_be_posted_are(
    p: PositionView,
    fills: Seq<FillView>,
    mark: Option<Civil>,
    today: Civil,
)
    ensures
        reconciled(p, fills, mark, today) is Some <==> posted(
            p,
            due_fills(fills, mark, today),
        ) is Some,
    decreases fills.len(),
{
    reveal(Seq::filter);
    if fills.len() > 0 {
        let front = fills.drop_last();
        let fill = fills.last();
        law_due_fills_that_can_be_posted_are(p, front, mark, today);
        lemma_due_step(fills, mark, today);
        let old_due = due_fills(front, mark, today);
        if is_new(fill, mark, today) {
            assert(due_fills(fills, mark, today).drop_last() =~= old_due);
            if reconciled(p, front, mark, today) is Some {
                law_reconcile_folds_in_every_due_fill(p, front, mark, today);
                let a = reconciled(p, front, mark, today)->0.position;
                let b = posted(p, old_due)->0;
                if stepped(a, fill, fill.at) is Some {
                    lemma_mark_is_carried(a, b, fill, fill.at);
                }
                if stepped(b, fill, fill.at) is Some {
                    lemma_mark_is_carried(b, a, fill, fill.at);
                }
            }
        }
    }
}

/// A day is applied fill by fill: a single fill as a step, fills in a row one part after the
/// other, and a cycle is completed on the day where either part completes one.
pub proof fn law_a_day_is_applied_fill_by_fill(
    p: PositionView,
    fill: FillView,
    a: Seq<FillView>,
    b: Seq<FillView>,
    date: Civil,
)
    ensures
        day_applied(p, Seq::empty(), date) == Some((p, false)),
        day_applied(p, seq![fill], date) == stepped(p, fill, date),
        day_applied(p, a, date) is None ==> day_applied(p, a + b, date) is None,
        day_applied(p, a, date) matches Some((q, first)) ==> (day_applied(p, a + b, date)
            == match day_applied(q, b, date) {
            Some((r, second)) => Some((r, first || second)),
            None => None,
        }),
    decreases b.len(),
{
    let one = seq![fill];
    assert(one.drop_last() =~= Seq::<FillView>::empty());
    assert(day_applied(p, one.drop_last(), date) == Some((p, false)));
    if b.len() == 0 {
        assert(a + b =~= a);
    } else {
        law_a_day_is_applied_fill_by_fill(p, fill, a, b.drop_last(), date);
        assert((a + b).drop_last() =~= a + b.drop_last());
        assert((a + b).last() == b.last());
    }
}

/// A counter is had wherever the amounts that it takes are in range, and is zero without a
/// budget.
pub proof fn law_a_counter_comes_where_amounts_fit(seed: Dec, splits: u32, spent: Dec, budget: Dec)
    requires
        decimal_quotient(seed, (if splits == 0 {
            1i128
        } else {
            splits as i128
        }, 0u32)) == Some(budget),
    ensures
        budget.0 == 0 ==> tranches(seed, splits, spent) == Some((0i128, 0u32)),
        budget.0 != 0 ==> (tranches(seed, splits, spent) is Some <==> {
            let raw = decimal_quotient(spent, budget);
            let tenths = decimal_product(raw->0, (10i128, 0u32));
            &&& raw is Some && tenths is Some
            &&& decimal_quotient(ceil_of(tenths->0), (10i128, 0u32)) is Some
        }),
{
}

/// The models of a fill and of a holding show what they hold, and those of lists every entry in
/// order.
pub proof fn law_the_models_of_fills_and_holdings(fill: Fill, holding: Holding, fills: Seq<Fill>)
    ensures
        fill@.side == fill.side,
        fill@.shares == fill.shares@,
        fill@.price == fill.price@,
        fill@.at == fill.at@,
        holding@.ticker == holding.ticker@,
        holding@.shares == holding.shares@,
        holding.avg_price matches Some(p) ==> holding@.avg_price == Some(p@),
        holding.avg_price is None ==> holding@.avg_price is None,
        fills_of(fills).len() == fills.len(),
        forall|i: int| 0 <= i < fills.len() ==> fills_of(fills)[i] == (#[trigger] fills[i])@,
{
}

/// The model of a ledger shows every field of it.
pub proof fn law_the_model_of_a_position(p: Position)
    ensures
        p@.account == p.account@,
        p@.broker == p.broker,
        p@.ticker == p.ticker@,
        p@.seed == p.seed@,
        p@.splits == p.splits,
        p@.shares == p.shares@,
        p.avg_price matches Some(avg) ==> p@.avg_price == Some(avg@),
        p.avg_price is None ==> p@.avg_price is None,
        p@.cum_spent == p.cum_spent@,
        p@.realized_pnl == p.realized_pnl@,
        p@.cycle_index == p.cycle_index,
        p.cycle_start matches Some(d) ==> p@.cycle_start == Some(d@),
        p.cycle_start is None ==> p@.cycle_start is None,
        p.reconciled_through matches Some(d) ==> p@.reconciled_through == Some(d@),
        p.reconciled_through is None ==> p@.reconciled_through is None,
{
}

} // verus!

//! The "infinite buying" method.
//!
//! The strategy is a decision function: given the position state and today's market
//! snapshot, it returns the day's order intents.
//!
//! Daily rules:
//! * The seed is divided into `splits` tranches; the daily budget is `seed / splits`.
//! * `T` (tranche counter) is the cumulative spend over the daily budget, rounded up; the
//!   seed is exhausted at `T = splits`.
//! * Buy (while `T < splits`), anchored on the average price `A`:
//!   * First half (`T < half_boundary`): half the budget as a limit-on-close buy at `A`, half
//!     at the variable price `A * (1 + (var_base - var_slope * T)%)`.
//!   * Second half: the whole budget as one limit-on-close buy at the variable price.
//! * Sell (while holding): three quarters as a limit sell at the fixed take-profit, and a
//!   quarter as a limit-on-close sell at the variable price.
//! * Quarter stop-loss: once the seed is exhausted and the position is under water, the
//!   quarter leg is a limit-on-close sell at the market price instead.

use crate::decimal::{
    dec_of, decimal_difference, decimal_product, decimal_quotient, decimal_sum, lemma_sign,
    lemma_whole_number, minus, num, representable, rounds, valid, whole, Dec, Decimal,
};
use crate::market::Side;
use crate::money::{
    affordable, floored_count, left_of, lemma_cost, moved, part_of, tranche, Percent, Price,
    Shares,
};
use crate::order::{IntentView, OrderIntent, OrderKind};
use crate::ports::{intents_of, DailyContext, MarketView, Strategy};
use crate::position::{tranches, PositionView};
use crate::schedule::{daily_schedule, Schedule, Trigger};
use vstd::prelude::*;

verus! {

/// Tunable parameters of the infinite-buying strategy. All percentage-like fields are plain
/// figures: a `take_profit_pct` of 15 means +15%.
#[derive(Clone, Copy, Debug)]
pub struct InfiniteBuyingConfig {
    /// Number of tranches the seed is divided into.
    pub splits: u32,
    /// Fixed take-profit for the three-quarter leg, as a percentage.
    pub take_profit_pct: Decimal,
    /// `T` threshold separating the first half from the second half.
    pub half_boundary: Decimal,
    /// Intercept of the variable price ladder.
    pub var_base: Decimal,
    /// Slope of the variable price ladder.
    pub var_slope: Decimal,
    /// Fraction of the holding sold on the variable ("quarter") leg.
    pub sell_quarter: Decimal,
    /// Enable quarter stop-loss de-risking once the seed is exhausted.
    pub quarter_stop: bool,
}

impl Default for InfiniteBuyingConfig {
    fn default() -> (r: InfiniteBuyingConfig)
        ensures
            r.splits == 40,
            r.take_profit_pct@ == dec_of(15),
            r.half_boundary@ == dec_of(20),
            r.var_base@ == dec_of(15),
            r.var_slope@ == (15i128, 1u32),
            r.sell_quarter@ == (25i128, 2u32),
            r.quarter_stop,
    {
        InfiniteBuyingConfig {
            splits: 40,
            take_profit_pct: Decimal::new(15, 0),
            half_boundary: Decimal::new(20, 0),
            var_base: Decimal::new(15, 0),
            var_slope: Decimal::new(15, 1),
            sell_quarter: Decimal::new(25, 2),
            quarter_stop: true,
        }
    }
}

/// A percentage as a ratio.
pub open spec fn ratio_of(percent: Option<Dec>) -> Option<Dec> {
    match percent {
        Some(p) => decimal_quotient(p, dec_of(100)),
        None => None,
    }
}

/// The variable move of the ladder: `(var_base - var_slope * t)` percent.
pub open spec fn variable_ratio(config: InfiniteBuyingConfig, t: Dec) -> Option<Dec> {
    ratio_of(
        minus(Some(config.var_base@), decimal_product(config.var_slope@, t)),
    )
}

/// A price after a move, `None` where the move or the price leaves the range.
pub open spec fn moved_by(price: Dec, ratio: Option<Dec>) -> Option<Dec> {
    match ratio {
        Some(r) => moved(price, r),
        None => None,
    }
}

/// An order as a list, empty if it is for no shares.
pub open spec fn kept(order: IntentView) -> Seq<IntentView> {
    if order.shares == 0 {
        Seq::empty()
    } else {
        seq![order]
    }
}

/// Whether the quarter leg is a stop: the seed is exhausted and the position under water.
pub open spec fn is_stop(config: InfiniteBuyingConfig, t: Dec, price: Dec, avg: Dec) -> bool {
    config.quarter_stop && num(t) >= num(dec_of(config.splits as int)) && num(price) < num(avg)
}

/// The sell orders while holding `shares` at an average price.
pub open spec fn sells(
    config: InfiniteBuyingConfig,
    shares: u32,
    avg: Dec,
    t: Dec,
    price: Dec,
) -> Option<Seq<IntentView>> {
    let stop = is_stop(config, t, price, avg);
    let last_limit = if stop {
        Some(price)
    } else {
        moved_by(avg, variable_ratio(config, t))
    };
    match (
        part_of(shares, config.sell_quarter@),
        moved_by(avg, ratio_of(Some(config.take_profit_pct@))),
        last_limit,
    ) {
        (Some(quarter), Some(target), Some(last)) => Some(
            kept(
                IntentView {
                    side: Side::Sell,
                    kind: OrderKind::Limit,
                    shares: left_of(shares, quarter),
                    limit: Some(target),
                    tag: "tp_rest"@,
                },
            ) + kept(
                IntentView {
                    side: Side::Sell,
                    kind: OrderKind::LimitOnClose,
                    shares: quarter,
                    limit: Some(last),
                    tag: if stop {
                        "quarter_stop"@
                    } else {
                        "tp_quarter"@
                    },
                },
            ),
        ),
        _ => None,
    }
}

/// One buy order of the ladder.
pub open spec fn ladder_buy(shares: u32, limit: Dec, tag: Seq<char>) -> Seq<IntentView> {
    kept(
        IntentView {
            side: Side::Buy,
            kind: OrderKind::LimitOnClose,
            shares,
            limit: Some(limit),
            tag,
        },
    )
}

/// The buy orders while the seed is not exhausted.
pub open spec fn buys(
    config: InfiniteBuyingConfig,
    budget: Dec,
    anchor: Dec,
    t: Dec,
) -> Option<Seq<IntentView>> {
    match moved_by(anchor, variable_ratio(config, t)) {
        Some(variable) => if num(t) < num(config.half_boundary@) {
            match decimal_product(budget, (5i128, 1u32)) {
                Some(half) => match (affordable(half, anchor), affordable(half, variable)) {
                    (Some(low), Some(high)) => Some(
                        ladder_buy(low, anchor, "loc_low"@) + ladder_buy(
                            high,
                            variable,
                            "loc_high"@,
                        ),
                    ),
                    _ => None,
                },
                None => None,
            }
        } else {
            match affordable(budget, variable) {
                Some(high) => Some(ladder_buy(high, variable, "loc_high"@)),
                None => None,
            }
        },
        None => None,
    }
}

/// The orders of a day: sells while holding, buys while the seed is not exhausted.
pub open spec fn ladder(config: InfiniteBuyingConfig, p: PositionView, price: Dec) -> Option<
    Seq<IntentView>,
> {
    match (tranche(p.seed, p.splits), tranches(p.seed, p.splits, p.cum_spent)) {
        (Some(budget), Some(t)) => {
            let sell_side = if p.avg_price is Some && p.shares > 0 {
                sells(config, p.shares, p.avg_price->0, t, price)
            } else {
                Some(Seq::empty())
            };
            let buy_side = if num(t) < num(dec_of(config.splits as int)) {
                buys(
                    config,
                    budget,
                    if p.avg_price is Some {
                        p.avg_price->0
                    } else {
                        price
                    },
                    t,
                )
            } else {
                Some(Seq::empty())
            };
            match (sell_side, buy_side) {
                (Some(s), Some(b)) => Some(s + b),
                _ => None,
            }
        },
        _ => None,
    }
}

/// The shares that a list of orders sells.
pub open spec fn sold(orders: Seq<IntentView>) -> int
    decreases orders.len(),
{
    if orders.len() == 0 {
        0
    } else {
        let order = orders.last();
        sold(orders.drop_last()) + if order.side == Side::Sell {
            order.shares as int
        } else {
            0
        }
    }
}

/// The infinite-buying strategy.
#[derive(Clone, Copy, Debug)]
pub struct InfiniteBuying {
    config: InfiniteBuyingConfig,
}

impl View for InfiniteBuying {
    type V = InfiniteBuyingConfig;

    closed spec fn view(&self) -> InfiniteBuyingConfig {
        self.config
    }
}

impl InfiniteBuying {
    pub fn new(config: InfiniteBuyingConfig) -> (r: InfiniteBuying)
        ensures
            r@ == config,
    {
        InfiniteBuying { config }
    }

    pub fn config(&self) -> (r: &InfiniteBuyingConfig)
        ensures
            *r == self@,
    {
        &self.config
    }

    /// The variable move of the ladder: `(var_base - var_slope * t)` percent. `None` where it
    /// leaves the range.
    pub fn variable_percent(&self, t: Decimal) -> (r: Option<Percent>)
        ensures
            match r {
                Some(p) => variable_ratio(self@, t@) == Some(p@),
                None => variable_ratio(self@, t@) is None,
            },
    {
        let slope = match self.config.var_slope.checked_mul(t) {
            Some(s) => s,
            None => return None,
        };
        match self.config.var_base.checked_sub(slope) {
            Some(percent) => Some(Percent::from_percent(percent)),
            None => None,
        }
    }

    /// A price moved by the variable percentage.
    fn variable_price(&self, price: Price, t: Decimal) -> (r: Option<Price>)
        ensures
            match r {
                Some(p) => moved_by(price@, variable_ratio(self@, t@)) == Some(p@),
                None => moved_by(price@, variable_ratio(self@, t@)) is None,
            },
    {
        match self.variable_percent(t) {
            Some(percent) => price.try_adjusted(percent),
            None => None,
        }
    }

    /// The sell side of a day: the fixed take-profit on three quarters, and the quarter leg,
    /// a stop once the seed is exhausted and the position under water.
    fn push_sells(
        &self,
        orders: &mut Vec<OrderIntent>,
        shares: Shares,
        avg: Price,
        t: Decimal,
        price: Price,
    ) -> (r: bool)
        ensures
            r == (sells(self@, shares@, avg@, t@, price@) is Some),
            r ==> intents_of(final(orders)@) == intents_of(old(orders)@) + sells(
                self@,
                shares@,
                avg@,
                t@,
                price@,
            )->0,
            r && num(self@.sell_quarter@) <= whole(1) ==> part_of(
                shares@,
                self@.sell_quarter@,
            )->0 <= shares@,
    {
        let quarter = match shares.try_fraction_floor(self.config.sell_quarter) {
            Some(_) => shares.fraction_floor(self.config.sell_quarter),
            None => return false,
        };
        let take_profit = Percent::from_percent(self.config.take_profit_pct);
        let target = match avg.try_adjusted(take_profit) {
            Some(p) => p,
            None => return false,
        };
        let seed_exhausted = t >= Decimal::from_u32(self.config.splits);
        let under_water = price.value() < avg.value();
        let stop = self.config.quarter_stop && seed_exhausted && under_water;
        let last = if stop {
            price
        } else {
            match self.variable_price(avg, t) {
                Some(p) => p,
                None => return false,
            }
        };
        push_kept(orders, OrderIntent::limit(Side::Sell, shares - quarter, target, "tp_rest"));
        push_kept(
            orders,
            OrderIntent::loc(
                Side::Sell,
                quarter,
                last,
                if stop {
                    "quarter_stop"
                } else {
                    "tp_quarter"
                },
            ),
        );
        assert(intents_of(orders@) =~= intents_of(old(orders)@) + sells(
            self@,
            shares@,
            avg@,
            t@,
            price@,
        )->0);
        true
    }

    /// The buy side of a day: in the first half, half the budget at the anchor and half at
    /// the variable price; in the second half all of it at the variable price.
    fn push_buys(
        &self,
        orders: &mut Vec<OrderIntent>,
        budget: crate::money::Money,
        anchor: Price,
        t: Decimal,
    ) -> (r: bool)
        ensures
            r == (buys(self@, budget@, anchor@, t@) is Some),
            r ==> intents_of(final(orders)@) == intents_of(old(orders)@) + buys(
                self@,
                budget@,
                anchor@,
                t@,
            )->0,
    {
        let variable = match self.variable_price(anchor, t) {
            Some(p) => p,
            None => return false,
        };
        if t < self.config.half_boundary {
            let half = match budget.try_scaled(Decimal::new(5, 1)) {
                Some(h) => h,
                None => return false,
            };
            let low = match half.try_shares_affordable(anchor) {
                Some(n) => n,
                None => return false,
            };
            let high = match half.try_shares_affordable(variable) {
                Some(n) => n,
                None => return false,
            };
            push_kept(orders, OrderIntent::loc(Side::Buy, low, anchor, "loc_low"));
            push_kept(orders, OrderIntent::loc(Side::Buy, high, variable, "loc_high"));
        } else {
            let high = match budget.try_shares_affordable(variable) {
                Some(n) => n,
                None => return false,
            };
            push_kept(orders, OrderIntent::loc(Side::Buy, high, variable, "loc_high"));
        }
        assert(intents_of(orders@) =~= intents_of(old(orders)@) + buys(
            self@,
            budget@,
            anchor@,
            t@,
        )->0);
        true
    }
}

/// Add an order unless it is for no shares (such as a budget too small for one share).
fn push_kept(orders: &mut Vec<OrderIntent>, order: OrderIntent)
    ensures
        intents_of(final(orders)@) == intents_of(old(orders)@) + kept(order@),
{
    if !order.is_noop() {
        orders.push(order);
    }
    assert(intents_of(orders@) =~= intents_of(old(orders)@) + kept(order@));
}

impl Strategy for InfiniteBuying {
    open spec fn decision(&self, position: PositionView, market: MarketView) -> Option<
        Seq<IntentView>,
    > {
        ladder(self@, position, market.price)
    }

    open spec fn identity(&self) -> Seq<char> {
        "infinite-buying"@
    }

    open spec fn wakeups(&self) -> Seq<Trigger> {
        seq![Trigger::Schedule(daily_schedule())]
    }

    fn name(&self) -> (r: &str) {
        "infinite-buying"
    }

    fn triggers(&self) -> (r: Vec<Trigger>) {
        let mut triggers: Vec<Trigger> = Vec::new();
        triggers.push(Trigger::Schedule(Schedule::daily_before_open()));
        assert(triggers@ =~= self.wakeups());
        triggers
    }

    fn decide(&self, ctx: &DailyContext<'_>) -> (r: Vec<OrderIntent>) {
        match self.try_decide(ctx) {
            Some(orders) => orders,
            None => unreached(),
        }
    }

    fn try_decide(&self, ctx: &DailyContext<'_>) -> (r: Option<Vec<OrderIntent>>)
        ensures
            r is Some && num(self@.sell_quarter@) <= whole(1) ==> sold(intents_of(r->0@))
                <= ctx.position@.shares,
    {
        let position = ctx.position;
        let price = ctx.market.price;
        let budget = position.daily_budget();
        let t = match position.try_t() {
            Some(t) => t,
            None => return None,
        };
        let mut orders: Vec<OrderIntent> = Vec::new();
        assert(intents_of(orders@) =~= Seq::<IntentView>::empty());
        // Sell side: only while holding.
        if let Some(avg) = position.avg_price {
            if !position.shares.is_zero() {
                if !self.push_sells(&mut orders, position.shares, avg, t, price) {
                    return None;
                }
            }
        }
        let ghost sell_side = intents_of(orders@);
        // Buy side: only while the seed is not exhausted.
        if t < Decimal::from_u32(self.config.splits) {
            let anchor = match position.avg_price {
                Some(avg) => avg,
                None => price,
            };
            if !self.push_buys(&mut orders, budget, anchor, t) {
                return None;
            }
        }
        proof {
            let all = ladder(self@, position@, price@)->0;
            assert(intents_of(orders@) =~= all);
            if num(self@.sell_quarter@) <= whole(1) {
                law_sells_match_the_holding(self@, position@, price@);
            }
        }
        Some(orders)
    }
}

proof fn lemma_sold_parts(a: Seq<IntentView>, b: Seq<IntentView>)
    ensures
        sold(a + b) == sold(a) + sold(b),
    decreases b.len(),
{
    if b.len() == 0 {
        assert(a + b =~= a);
    } else {
        assert((a + b).drop_last() =~= a + b.drop_last());
        lemma_sold_parts(a, b.drop_last());
    }
}

proof fn lemma_sold_kept(order: IntentView)
    ensures
        sold(kept(order)) == if order.side == Side::Sell {
            order.shares as int
        } else {
            0
        },
{
    reveal_with_fuel(sold, 2);
    if order.shares > 0 {
        assert(kept(order).drop_last() =~= Seq::<IntentView>::empty());
    }
}

/// A day's sells are exactly the holding, as long as the quarter leg is not more than all of
/// it; without a holding nothing is sold.
pub proof fn law_sells_match_the_holding(
    config: InfiniteBuyingConfig,
    p: PositionView,
    price: Dec,
)
    requires
        ladder(config, p, price) is Some,
        p.avg_price is Some && p.shares > 0 ==> part_of(p.shares, config.sell_quarter@)->0
            <= p.shares,
    ensures
        sold(ladder(config, p, price)->0) == if p.avg_price is Some {
            p.shares as int
        } else {
            0
        },
{
    let t = tranches(p.seed, p.splits, p.cum_spent)->0;
    let budget = tranche(p.seed, p.splits)->0;
    let sell_side = if p.avg_price is Some && p.shares > 0 {
        sells(config, p.shares, p.avg_price->0, t, price)->0
    } else {
        Seq::empty()
    };
    let anchor = if p.avg_price is Some {
        p.avg_price->0
    } else {
        price
    };
    let buy_side = if num(t) < num(dec_of(config.splits as int)) {
        buys(config, budget, anchor, t)->0
    } else {
        Seq::empty()
    };
    assert(ladder(config, p, price)->0 == sell_side + buy_side);
    lemma_sold_parts(sell_side, buy_side);
    assert(sold(Seq::<IntentView>::empty()) == 0);
    if p.avg_price is Some && p.shares > 0 {
        let stop = is_stop(config, t, price, p.avg_price->0);
        let quarter = part_of(p.shares, config.sell_quarter@)->0;
        let target = moved_by(p.avg_price->0, ratio_of(Some(config.take_profit_pct@)))->0;
        let last = if stop {
            price
        } else {
            moved_by(p.avg_price->0, variable_ratio(config, t))->0
        };
        let a = IntentView {
            side: Side::Sell,
            kind: OrderKind::Limit,
            shares: left_of(p.shares, quarter),
            limit: Some(target),
            tag: "tp_rest"@,
        };
        let b = IntentView {
            side: Side::Sell,
            kind: OrderKind::LimitOnClose,
            shares: quarter,
            limit: Some(last),
            tag: if stop {
                "quarter_stop"@
            } else {
                "tp_quarter"@
            },
        };
        assert(sell_side == kept(a) + kept(b));
        lemma_sold_parts(kept(a), kept(b));
        lemma_sold_kept(a);
        lemma_sold_kept(b);
    }
    if num(t) < num(dec_of(config.splits as int)) {
        lemma_buys_sell_nothing(config, budget, anchor, t);
    }
}

proof fn lemma_buys_sell_nothing(config: InfiniteBuyingConfig, budget: Dec, anchor: Dec, t: Dec)
    requires
        buys(config, budget, anchor, t) is Some,
    ensures
        sold(buys(config, budget, anchor, t)->0) == 0,
{
    let variable = moved_by(anchor, variable_ratio(config, t))->0;
    if num(t) < num(config.half_boundary@) {
        let half = decimal_product(budget, (5i128, 1u32))->0;
        let low = affordable(half, anchor)->0;
        let high = affordable(half, variable)->0;
        let a = ladder_buy(low, anchor, "loc_low"@);
        let b = ladder_buy(high, variable, "loc_high"@);
        lemma_sold_parts(a, b);
        lemma_buy_sells_nothing(low, anchor, "loc_low"@);
        lemma_buy_sells_nothing(high, variable, "loc_high"@);
    } else {
        lemma_buy_sells_nothing(affordable(budget, variable)->0, variable, "loc_high"@);
    }
}

proof fn lemma_buy_sells_nothing(shares: u32, limit: Dec, tag: Seq<char>)
    ensures
        sold(ladder_buy(shares, limit, tag)) == 0,
{
    lemma_sold_kept(
        IntentView {
            side: Side::Buy,
            kind: OrderKind::LimitOnClose,
            shares,
            limit: Some(limit),
            tag,
        },
    );
}

/// No order of a day is a no-op, and no two of them carry the same tag.
pub proof fn law_one_order_per_tag(config: InfiniteBuyingConfig, p: PositionView, price: Dec)
    requires
        ladder(config, p, price) is Some,
    ensures
        ({
            let orders = ladder(config, p, price)->0;
            &&& orders.len() <= 4
            &&& forall|i: int| 0 <= i < orders.len() ==> (#[trigger] orders[i]).shares > 0
            &&& forall|i: int, j: int|
                #![trigger orders[i], orders[j]]
                0 <= i < j < orders.len() ==> orders[i].tag != orders[j].tag
        }),
{
    lemma_tags_differ();
}

proof fn lemma_tags_differ()
    ensures
        "tp_rest"@ != "tp_quarter"@,
        "tp_rest"@ != "quarter_stop"@,
        "tp_rest"@ != "loc_low"@,
        "tp_rest"@ != "loc_high"@,
        "tp_quarter"@ != "quarter_stop"@,
        "tp_quarter"@ != "loc_low"@,
        "tp_quarter"@ != "loc_high"@,
        "quarter_stop"@ != "loc_low"@,
        "quarter_stop"@ != "loc_high"@,
        "loc_low"@ != "loc_high"@,
{
    reveal_strlit("tp_rest");
    reveal_strlit("tp_quarter");
    reveal_strlit("quarter_stop");
    reveal_strlit("loc_low");
    reveal_strlit("loc_high");
    assert("tp_rest"@[3] == 'r' && "tp_quarter"@[3] == 'q');
    assert("tp_rest"@[0] == 't' && "tp_quarter"@[0] == 't' && "quarter_stop"@[0] == 'q');
    assert("loc_low"@[0] == 'l' && "loc_high"@[0] == 'l');
    assert("loc_low"@.len() == 7 && "loc_high"@.len() == 8);
}

/// Once the seed is exhausted nothing is bought; the quarter leg is a stop exactly if the
/// position is then under water and stops are enabled.
pub proof fn law_no_buys_once_exhausted(config: InfiniteBuyingConfig, p: PositionView, price: Dec)
    requires
        ladder(config, p, price) is Some,
        num(tranches(p.seed, p.splits, p.cum_spent)->0) >= num(dec_of(config.splits as int)),
    ensures
        forall|i: int|
            0 <= i < ladder(config, p, price)->0.len() ==> (#[trigger] ladder(
                config,
                p,
                price,
            )->0[i]).side == Side::Sell,
        forall|i: int|
            0 <= i < ladder(config, p, price)->0.len() && (#[trigger] ladder(
                config,
                p,
                price,
            )->0[i]).kind == OrderKind::LimitOnClose ==> (ladder(config, p, price)->0[i].tag
                == "quarter_stop"@ <==> config.quarter_stop && num(price) < num(p.avg_price->0)),
{
    lemma_tags_differ();
}

/// What the buys of a list of orders cost at their limits.
pub open spec fn cost(orders: Seq<IntentView>) -> real
    decreases orders.len(),
{
    if orders.len() == 0 {
        0real
    } else {
        let order = orders.last();
        cost(orders.drop_last()) + if order.side == Side::Buy && order.limit is Some {
            whole(order.shares as int) * num(order.limit->0)
        } else {
            0real
        }
    }
}

/// Whether a count of shares is at most the exact quotient of an amount by a price. A count
/// that was rounded down from a rounded quotient is, unless rounding reached a whole number
/// above the exact quotient.
pub open spec fn is_paid_for(amount: real, price: Dec, shares: u32) -> bool {
    price.0 > 0 ==> whole(shares as int) <= amount / num(price)
}

proof fn lemma_cost_parts(a: Seq<IntentView>, b: Seq<IntentView>)
    ensures
        cost(a + b) == cost(a) + cost(b),
    decreases b.len(),
{
    if b.len() == 0 {
        assert(a + b =~= a);
    } else {
        assert((a + b).drop_last() =~= a + b.drop_last());
        lemma_cost_parts(a, b.drop_last());
    }
}

proof fn lemma_sells_cost_nothing(orders: Seq<IntentView>)
    requires
        forall|i: int| 0 <= i < orders.len() ==> (#[trigger] orders[i]).side == Side::Sell,
    ensures
        cost(orders) == 0real,
    decreases orders.len(),
{
    if orders.len() > 0 {
        let front = orders.drop_last();
        assert forall|i: int| 0 <= i < front.len() implies (#[trigger] front[i]).side
            == Side::Sell by {
            assert(front[i] == orders[i]);
        }
        lemma_sells_cost_nothing(front);
        assert(orders[orders.len() - 1].side == Side::Sell);
    }
}

proof fn lemma_leg_costs_its_budget(amount: real, price: Dec, shares: u32, tag: Seq<char>)
    requires
        amount >= 0real,
        price.0 <= 0 ==> shares == 0,
        is_paid_for(amount, price, shares),
    ensures
        cost(ladder_buy(shares, price, tag)) <= amount,
{
    let leg = ladder_buy(shares, price, tag);
    reveal_with_fuel(cost, 2);
    if shares > 0 {
        lemma_sign(price);
        lemma_cost(amount, num(price), shares);
        assert(leg.drop_last() =~= Seq::<IntentView>::empty());
    }
}

/// A day's buys together cost no more than the daily budget, unless rounding it, or half of
/// it, over a price reached a whole number of shares that it does not quite pay for.
pub proof fn law_buys_stay_within_the_budget(
    config: InfiniteBuyingConfig,
    p: PositionView,
    price: Dec,
    budget: Dec,
    t: Dec,
)
    requires
        ladder(config, p, price) is Some,
        tranche(p.seed, p.splits) == Some(budget),
        tranches(p.seed, p.splits, p.cum_spent) == Some(t),
        num(budget) >= whole(0),
        num(t) < num(dec_of(config.splits as int)) ==> ({
            let anchor = if p.avg_price is Some {
                p.avg_price->0
            } else {
                price
            };
            let variable = moved_by(anchor, variable_ratio(config, t))->0;
            if num(t) < num(config.half_boundary@) {
                let half = decimal_product(budget, (5i128, 1u32))->0;
                &&& is_paid_for(num(budget) / 2real, anchor, affordable(half, anchor)->0)
                &&& is_paid_for(num(budget) / 2real, variable, affordable(half, variable)->0)
            } else {
                is_paid_for(num(budget), variable, affordable(budget, variable)->0)
            }
        }),
    ensures
        cost(ladder(config, p, price)->0) <= num(budget),
{
    let sell_side = if p.avg_price is Some && p.shares > 0 {
        sells(config, p.shares, p.avg_price->0, t, price)->0
    } else {
        Seq::empty()
    };
    let anchor = if p.avg_price is Some {
        p.avg_price->0
    } else {
        price
    };
    let buy_side = if num(t) < num(dec_of(config.splits as int)) {
        buys(config, budget, anchor, t)->0
    } else {
        Seq::empty()
    };
    assert(ladder(config, p, price)->0 == sell_side + buy_side);
    lemma_cost_parts(sell_side, buy_side);
    lemma_sells_cost_nothing(sell_side);
    if num(t) < num(dec_of(config.splits as int)) {
        let variable = moved_by(anchor, variable_ratio(config, t))->0;
        if num(t) < num(config.half_boundary@) {
            let half = decimal_product(budget, (5i128, 1u32))->0;
            let low = affordable(half, anchor)->0;
            let high = affordable(half, variable)->0;
            lemma_leg_costs_its_budget(num(budget) / 2real, anchor, low, "loc_low"@);
            lemma_leg_costs_its_budget(num(budget) / 2real, variable, high, "loc_high"@);
            lemma_cost_parts(
                ladder_buy(low, anchor, "loc_low"@),
                ladder_buy(high, variable, "loc_high"@),
            );
        } else {
            let high = affordable(budget, variable)->0;
            lemma_leg_costs_its_budget(num(budget), variable, high, "loc_high"@);
        }
    }
}

/// Whatever the counter and the market price are, every plain limit sell of a day asks for the
/// average price moved by the take-profit percentage, for all the held shares but the quarter,
/// and there is one wherever some are left.
pub proof fn law_limit_sells_ask_for_the_take_profit(
    config: InfiniteBuyingConfig,
    p: PositionView,
    price: Dec,
    avg: Dec,
)
    requires
        ladder(config, p, price) is Some,
        p.shares > 0,
        p.avg_price == Some(avg),
    ensures
        ({
            let orders = ladder(config, p, price)->0;
            let ratio = decimal_quotient(config.take_profit_pct@, (100i128, 0u32));
            let factor = decimal_sum((1i128, 0u32), ratio->0);
            let quarter = floored_count(
                decimal_product((p.shares as i128, 0u32), config.sell_quarter@)->0,
            );
            &&& forall|i: int|
                0 <= i < orders.len() && (#[trigger] orders[i]).side == Side::Sell && orders[i].kind
                    == OrderKind::Limit ==> orders[i].limit is Some && orders[i].limit
                    == decimal_product(avg, factor->0) && orders[i].shares == p.shares - quarter
                    && orders[i].tag == "tp_rest"@
            &&& quarter < p.shares ==> exists|i: int|
                0 <= i < orders.len() && (#[trigger] orders[i]).side == Side::Sell && orders[i].kind
                    == OrderKind::Limit
        }),
{
    let orders = ladder(config, p, price)->0;
    let quarter = floored_count(
        decimal_product((p.shares as i128, 0u32), config.sell_quarter@)->0,
    );
    if quarter < p.shares {
        assert(orders[0].side == Side::Sell && orders[0].kind == OrderKind::Limit);
    }
}

/// With a take-profit that is not negative no limit sell is below the average price. The
/// operations round as every operation on decimals does.
pub proof fn law_take_profits_are_no_loss(
    take_profit: Dec,
    avg: Dec,
    ratio: Dec,
    factor: Dec,
    limit: Dec,
)
    requires
        take_profit.0 >= 0,
        valid(avg),
        avg.0 > 0,
        rounds(num(take_profit) / num((100i128, 0u32)), Some(ratio)),
        rounds(num((1i128, 0u32)) + num(ratio), Some(factor)),
        rounds(num(avg) * num(factor), Some(limit)),
    ensures
        num(limit) >= num(avg),
{
    lemma_whole_number(100);
    lemma_whole_number(1);
    lemma_sign(take_profit);
    lemma_sign(avg);
    assert(whole(0) <= num(take_profit) / 100real);
    assert(whole(0) <= num(ratio));
    assert(whole(1) <= num((1i128, 0u32)) + num(ratio));
    assert(whole(1) <= num(factor));
    let a = num(avg);
    let f = num(factor);
    assert(a <= a * f) by (nonlinear_arith)
        requires
            a > 0real,
            f >= 1real,
    ;
    assert(representable(a));
}

/// The quarter leg of a day is a limit-on-close sell of the configured fraction of the holding,
/// rounded down. It asks for the market price, as a stop, exactly if stops are enabled, the
/// counter has reached the splits and the market is below the average; otherwise for the
/// average moved by the base less the slope times the counter, in percent.
pub proof fn law_the_quarter_leg(
    config: InfiniteBuyingConfig,
    p: PositionView,
    price: Dec,
    avg: Dec,
    t: Dec,
)
    requires
        ladder(config, p, price) is Some,
        p.shares > 0,
        p.avg_price == Some(avg),
        tranches(p.seed, p.splits, p.cum_spent) == Some(t),
    ensures
        ({
            let orders = ladder(config, p, price)->0;
            let quarter = floored_count(
                decimal_product((p.shares as i128, 0u32), config.sell_quarter@)->0,
            );
            let percent = decimal_difference(
                config.var_base@,
                decimal_product(config.var_slope@, t)->0,
            );
            let ratio = decimal_quotient(percent->0, (100i128, 0u32));
            let factor = decimal_sum((1i128, 0u32), ratio->0);
            let stop = config.quarter_stop && num(t) >= num((config.splits as i128, 0u32)) && num(
                price,
            ) < num(avg);
            &&& forall|i: int|
                0 <= i < orders.len() && (#[trigger] orders[i]).side == Side::Sell && orders[i].kind
                    != OrderKind::Limit ==> orders[i].kind == OrderKind::LimitOnClose
                    && orders[i].shares == quarter && orders[i].limit is Some && (stop
                    ==> orders[i].limit == Some(price) && orders[i].tag == "quarter_stop"@) && (
                !stop ==> orders[i].limit == decimal_product(avg, factor->0) && orders[i].tag
                    == "tp_quarter"@)
            &&& quarter > 0 ==> exists|i: int|
                0 <= i < orders.len() && (#[trigger] orders[i]).side == Side::Sell && orders[i].kind
                    == OrderKind::LimitOnClose
        }),
{
    let orders = ladder(config, p, price)->0;
    let quarter = floored_count(
        decimal_product((p.shares as i128, 0u32), config.sell_quarter@)->0,
    );
    if quarter > 0 {
        let at = if quarter < p.shares {
            1int
        } else {
            0int
        };
        assert(orders[at].side == Side::Sell && orders[at].kind == OrderKind::LimitOnClose);
    }
}

/// Nothing is sold without a holding.
pub proof fn law_nothing_is_sold_without_a_holding(
    config: InfiniteBuyingConfig,
    p: PositionView,
    price: Dec,
)
    requires
        ladder(config, p, price) is Some,
        p.shares == 0 || p.avg_price is None,
    ensures
        forall|i: int|
            0 <= i < ladder(config, p, price)->0.len() ==> (#[trigger] ladder(
                config,
                p,
                price,
            )->0[i]).side == Side::Buy,
{
}

/// The buys of a day, while the counter is below the splits. All are limit-on-close. Below the
/// half boundary half the daily budget goes to the average price, or the market price before
/// there is one, and half to the variable price; from it on the whole budget goes to the
/// variable price. Each leg buys as many whole shares as its part of the budget pays for.
pub proof fn law_the_buy_legs(
    config: InfiniteBuyingConfig,
    p: PositionView,
    price: Dec,
    budget: Dec,
    t: Dec,
)
    requires
        ladder(config, p, price) is Some,
        tranches(p.seed, p.splits, p.cum_spent) == Some(t),
        decimal_quotient(p.seed, (if p.splits == 0 {
            1i128
        } else {
            p.splits as i128
        }, 0u32)) == Some(budget),
        num(t) < num((config.splits as i128, 0u32)),
    ensures
        ({
            let orders = ladder(config, p, price)->0;
            let anchor = match p.avg_price {
                Some(avg) => avg,
                None => price,
            };
            let percent = decimal_difference(
                config.var_base@,
                decimal_product(config.var_slope@, t)->0,
            );
            let factor = decimal_sum(
                (1i128, 0u32),
                decimal_quotient(percent->0, (100i128, 0u32))->0,
            );
            let variable = decimal_product(anchor, factor->0);
            let half = decimal_product(budget, (5i128, 1u32));
            let first_half = num(t) < num(config.half_boundary@);
            let part = if first_half {
                half->0
            } else {
                budget
            };
            let low = whole_shares(half->0, anchor);
            let high = whole_shares(part, variable->0);
            &&& forall|i: int|
                0 <= i < orders.len() && (#[trigger] orders[i]).side == Side::Buy
                    ==> orders[i].kind == OrderKind::LimitOnClose && ((orders[i].tag == "loc_low"@
                    && first_half && orders[i].limit == Some(anchor) && orders[i].shares == low) || (
                orders[i].tag == "loc_high"@ && orders[i].limit == variable && orders[i].limit is Some
                    && orders[i].shares == high))
            &&& first_half && low > 0 ==> exists|i: int|
                0 <= i < orders.len() && (#[trigger] orders[i]).side == Side::Buy && orders[i].tag
                    == "loc_low"@
            &&& high > 0 ==> exists|i: int|
                0 <= i < orders.len() && (#[trigger] orders[i]).side == Side::Buy && orders[i].tag
                    == "loc_high"@
        }),
{
    let orders = ladder(config, p, price)->0;
    let anchor = match p.avg_price {
        Some(avg) => avg,
        None => price,
    };
    let sell_side = if p.avg_price is Some && p.shares > 0 {
        sells(config, p.shares, p.avg_price->0, t, price)->0
    } else {
        Seq::empty()
    };
    let buy_side = buys(config, budget, anchor, t)->0;
    assert(orders == sell_side + buy_side);
    let n = sell_side.len() as int;
    assert forall|k: int| 0 <= k < buy_side.len() implies orders[n + k] == #[trigger] buy_side[k] by {
    }
    assert forall|i: int| 0 <= i < orders.len() && (#[trigger] orders[i]).side == Side::Buy implies i
        >= n by {
        if i < n {
            assert(orders[i] == sell_side[i]);
        }
    }
    let half = decimal_product(budget, (5i128, 1u32))->0;
    let first_half = num(t) < num(config.half_boundary@);
    let low = whole_shares(half, anchor);
    let variable = moved_by(anchor, variable_ratio(config, t))->0;
    let high = whole_shares(
        if first_half {
            half
        } else {
            budget
        },
        variable,
    );
    if first_half && low > 0 {
        assert(buy_side[0].tag == "loc_low"@);
        assert(orders[n].side == Side::Buy && orders[n].tag == "loc_low"@);
    }
    if high > 0 {
        let k = if first_half && low > 0 {
            1int
        } else {
            0int
        };
        assert(buy_side[k].tag == "loc_high"@);
        assert(orders[n + k].side == Side::Buy && orders[n + k].tag == "loc_high"@);
    }
}

/// The whole shares in the quotient of an amount by a price; none at a price that is not
/// positive.
pub open spec fn whole_shares(amount: Dec, price: Dec) -> u32 {
    if price.0 <= 0 {
        0
    } else {
        floored_count(decimal_quotient(amount, price)->0)
    }
}

/// The strategy decides on the ledger and the market price alone, goes by `infinite-buying`, and
/// is called once a day at nine in the morning.
pub proof fn law_the_strategy_decides_on_ledger_and_price(
    strategy: InfiniteBuying,
    p: PositionView,
    one: MarketView,
    other: MarketView,
)
    requires
        one.price == other.price,
    ensures
        strategy.decision(p, one) == strategy.decision(p, other),
        strategy.decision(p, one) == ladder(strategy@, p, one.price),
        strategy.identity() == "infinite-buying"@,
        strategy.wakeups().len() == 1,
        strategy.wakeups()[0] matches Trigger::Schedule(s) && s.at_eastern.nanos
            == 32_400_000_000_000u64,
{
}

/// The sells of a day come before its buys, the plain limit sell before the quarter leg, and the
/// buy at the average before the one at the variable price.
pub proof fn law_the_orders_of_a_day_come_in_order(
    config: InfiniteBuyingConfig,
    p: PositionView,
    price: Dec,
    i: int,
    j: int,
)
    requires
        ladder(config, p, price) is Some,
        0 <= i < j < ladder(config, p, price)->0.len(),
    ensures
        ({
            let first = ladder(config, p, price)->0[i];
            let then = ladder(config, p, price)->0[j];
            &&& then.side == Side::Sell ==> first.side == Side::Sell && first.kind
                == OrderKind::Limit && then.kind == OrderKind::LimitOnClose
            &&& first.side == Side::Buy ==> then.side == Side::Buy && first.tag == "loc_low"@
                && then.tag == "loc_high"@
        }),
{
}

/// A day has its orders wherever the amounts that they take are in range.
pub proof fn law_a_day_has_its_orders_where_amounts_fit(
    config: InfiniteBuyingConfig,
    p: PositionView,
    price: Dec,
    budget: Dec,
    t: Dec,
)
    requires
        tranches(p.seed, p.splits, p.cum_spent) == Some(t),
        decimal_quotient(p.seed, (if p.splits == 0 {
            1i128
        } else {
            p.splits as i128
        }, 0u32)) == Some(budget),
        ({
            let anchor = match p.avg_price {
                Some(avg) => avg,
                None => price,
            };
            let slope = decimal_product(config.var_slope@, t);
            let percent = decimal_difference(config.var_base@, slope->0);
            let ratio = decimal_quotient(percent->0, (100i128, 0u32));
            let factor = decimal_sum((1i128, 0u32), ratio->0);
            let variable = decimal_product(anchor, factor->0);
            let gain = decimal_quotient(config.take_profit_pct@, (100i128, 0u32));
            let up = decimal_sum((1i128, 0u32), gain->0);
            let half = decimal_product(budget, (5i128, 1u32));
            &&& slope is Some && percent is Some && ratio is Some && factor is Some
            &&& variable is Some
            &&& p.avg_price is Some && p.shares > 0 ==> gain is Some && up is Some
                && decimal_product(anchor, up->0) is Some && decimal_product(
                (p.shares as i128, 0u32),
                config.sell_quarter@,
            ) is Some
            &&& half is Some
            &&& decimal_quotient(half->0, anchor) is Some
            &&& decimal_quotient(half->0, variable->0) is Some
            &&& decimal_quotient(budget, variable->0) is Some
        }),
    ensures
        ladder(config, p, price) is Some,
{
}

} // verus!

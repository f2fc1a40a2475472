//! The backtest engine: a deterministic, broker-free replay of daily bars through a
//! strategy. It uses the same settlement rule as paper trading, and marks the position to
//! market each day to build an equity curve.

use crate::date::{Civil, Date};
use crate::decimal::{
    dec_of, decimal_difference, decimal_product, decimal_sum, minus, plus, Dec,
};
use crate::error::{DomainError, Failure};
use crate::market::{Bar, MarketSnapshot, Ticker};
use crate::money::{total_of, Money, Price};
use crate::order::{IntentView, OrderIntent};
use crate::ports::{intents_of, DailyContext, MarketView, Strategy};
use crate::position::{
    day_applied, fills_of, law_sell_out_banks_the_cycle, stepped, Fill, FillView, Position,
    PositionView,
};
use crate::settlement::{settle, settled};
use vstd::prelude::*;

verus! {

/// The fills of a day's orders, in the order of the orders.
pub open spec fn settled_all(intents: Seq<IntentView>, bar: Bar) -> Seq<FillView>
    decreases intents.len(),
{
    if intents.len() == 0 {
        Seq::empty()
    } else {
        let before = settled_all(intents.drop_last(), bar);
        match settled(intents.last(), bar) {
            Some(fill) => before.push(fill),
            None => before,
        }
    }
}

/// Account equity: the seed, the banked profit and the unrealized profit at a price.
pub open spec fn equity_of(p: PositionView, close: Dec) -> Option<Dec> {
    let unrealized = match p.avg_price {
        Some(avg) => if p.shares > 0 {
            minus(total_of(close, p.shares), total_of(avg, p.shares))
        } else {
            Some(dec_of(0))
        },
        None => Some(dec_of(0)),
    };
    plus(plus(Some(p.seed), Some(p.realized_pnl)), unrealized)
}

/// What a replay has come to.
pub struct Replay {
    pub position: PositionView,
    pub trading_days: nat,
    pub cycles: nat,
    pub curve: Seq<(Civil, Dec)>,
}

/// One more day of a replay.
pub open spec fn replayed_day<S: Strategy>(
    strategy: S,
    before: Replay,
    ticker: Seq<char>,
    bar: Bar,
) -> Option<Replay> {
    let market = MarketView { ticker, price: bar.close@, as_of: bar.date@ };
    match strategy.decision(before.position, market) {
        Some(intents) => {
            let fills = settled_all(intents, bar);
            match day_applied(before.position, fills, bar.date@) {
                Some((position, completed)) => match equity_of(position, bar.close@) {
                    Some(equity) => Some(
                        Replay {
                            position,
                            trading_days: before.trading_days + if fills.len() > 0 {
                                1nat
                            } else {
                                0nat
                            },
                            cycles: before.cycles + if completed {
                                1nat
                            } else {
                                0nat
                            },
                            curve: before.curve.push((bar.date@, equity)),
                        },
                    ),
                    None => None,
                },
                None => None,
            }
        },
        None => None,
    }
}

/// A replay of bars in order, `None` where an amount leaves the range.
pub open spec fn replayed<S: Strategy>(
    strategy: S,
    position: PositionView,
    bars: Seq<Bar>,
) -> Option<Replay>
    decreases bars.len(),
{
    if bars.len() == 0 {
        Some(Replay { position, trading_days: 0, cycles: 0, curve: Seq::empty() })
    } else {
        match replayed(strategy, position, bars.drop_last()) {
            Some(before) => replayed_day(strategy, before, position.ticker, bars.last()),
            None => None,
        }
    }
}

/// The outcome of a backtest run.
#[derive(Debug)]
pub struct BacktestReport {
    pub ticker: Ticker,
    pub start: Date,
    pub end: Date,
    pub initial_seed: Money,
    pub final_equity: Money,
    pub realized_pnl: Money,
    pub cycles_completed: u32,
    pub total_days: usize,
    /// Days on which at least one order filled.
    pub trading_days: usize,
    /// The equity at the close of each day.
    pub equity_curve: Vec<(Date, Money)>,
}

/// The models of an equity curve.
pub open spec fn curve_of(curve: Seq<(Date, Money)>) -> Seq<(Civil, Dec)> {
    Seq::new(curve.len(), |i: int| (curve[i].0@, curve[i].1@))
}

impl BacktestReport {
    /// Whether this is the report of a replay of `bars` from `position`.
    pub open spec fn reports(self, position: PositionView, bars: Seq<Bar>, replay: Replay) -> bool {
        &&& self.ticker@ == position.ticker
        &&& self.start@ == bars.first().date@
        &&& self.end@ == bars.last().date@
        &&& self.initial_seed@ == position.seed
        &&& equity_of(replay.position, bars.last().close@) == Some(self.final_equity@)
        &&& self.realized_pnl@ == replay.position.realized_pnl
        &&& self.cycles_completed == replay.cycles
        &&& self.total_days == bars.len()
        &&& self.trading_days == replay.trading_days
        &&& curve_of(self.equity_curve@) == replay.curve
    }
}

/// The backtest runner.
#[derive(Debug)]
pub struct Backtest;

impl Backtest {
    /// Replay `bars` (chronological) through `strategy`, starting from `position`.
    pub fn run<S: Strategy>(strategy: &S, position: Position, bars: &[Bar]) -> (r: Result<
        BacktestReport,
        DomainError,
    >)
        requires
            replayed(*strategy, position@, bars@) is Some,
        ensures
            match r {
                Ok(report) => bars@.len() > 0 && report.reports(
                    position@,
                    bars@,
                    replayed(*strategy, position@, bars@)->0,
                ),
                Err(e) => bars@.len() == 0 && e@ == Failure::MarketData(
                    "backtest needs at least one bar"@,
                ),
            },
    {
        if bars.len() == 0 {
            return Err(DomainError::MarketData("backtest needs at least one bar".to_owned()));
        }
        let ghost initial = position@;
        let start = bars[0].date;
        let end = bars[bars.len() - 1].date;
        let initial_seed = position.seed;
        let ticker = position.ticker.clone();
        let mut position = position;
        let mut equity_curve: Vec<(Date, Money)> = Vec::new();
        let mut trading_days: usize = 0;
        let mut cycles_completed: u32 = 0;
        let mut final_equity = Money::zero();
        let mut i: usize = 0;
        assert(bars@.take(0) =~= Seq::<Bar>::empty());
        assert(curve_of(equity_curve@) =~= Seq::<(Civil, Dec)>::empty());
        while i < bars.len()
            invariant
                i <= bars.len(),
                ticker@ == initial.ticker,
                replayed(*strategy, initial, bars@) is Some,
                replayed(*strategy, initial, bars@.take(i as int)) == Some(
                    Replay {
                        position: position@,
                        trading_days: trading_days as nat,
                        cycles: cycles_completed as nat,
                        curve: curve_of(equity_curve@),
                    },
                ),
                trading_days <= i,
                initial.cycle_index + cycles_completed <= position@.cycle_index,
                i > 0 ==> equity_of(position@, bars[i - 1].close@) == Some(final_equity@),
            decreases bars.len() - i,
        {
            let bar = bars[i];
            proof {
                lemma_replay_prefix(*strategy, initial, bars@, i + 1);
                assert(bars@.take(i + 1).drop_last() =~= bars@.take(i as int));
                assert(bars@.take(i + 1).last() == bar);
            }
            let market = MarketSnapshot { ticker: ticker.clone(), price: bar.close, as_of: bar.date
            };
            let intents = strategy.decide(&DailyContext { position: &position, market: &market });
            let day_fills = settle_all(&intents, &bar);
            let ghost before = position@;
            if day_fills.len() > 0 {
                trading_days = trading_days + 1;
            }
            let completed = position.apply_day(&day_fills, bar.date);
            proof {
                lemma_day_cycles(before, fills_of(day_fills@), bar.date@);
            }
            if completed {
                cycles_completed = cycles_completed + 1;
            }
            let equity = equity_value(&position, bar.close);
            let ghost curve = curve_of(equity_curve@);
            equity_curve.push((bar.date, equity));
            assert(curve_of(equity_curve@) =~= curve.push((bar.date@, equity@)));
            final_equity = equity;
            i += 1;
        }
        assert(bars@.take(i as int) =~= bars@);
        Ok(
            BacktestReport {
                ticker,
                start,
                end,
                initial_seed,
                final_equity,
                realized_pnl: position.realized_pnl,
                cycles_completed,
                total_days: bars.len(),
                trading_days,
                equity_curve,
            },
        )
    }

    /// Replay `bars`; `None` where an amount leaves the range on the way.
    pub fn try_run<S: Strategy>(strategy: &S, position: Position, bars: &[Bar]) -> (r: Option<
        Result<BacktestReport, DomainError>,
    >)
        ensures
            match r {
                Some(Ok(report)) => bars@.len() > 0 && replayed(*strategy, position@, bars@) is Some
                    && report.reports(
                    position@,
                    bars@,
                    replayed(*strategy, position@, bars@)->0,
                ),
                Some(Err(e)) => bars@.len() == 0 && e@ == Failure::MarketData(
                    "backtest needs at least one bar"@,
                ),
                None => replayed(*strategy, position@, bars@) is None,
            },
    {
        let ghost initial = position@;
        let mut rehearsal = position.clone();
        let ghost mut state = Replay {
            position: initial,
            trading_days: 0,
            cycles: 0,
            curve: Seq::empty(),
        };
        let mut i: usize = 0;
        assert(bars@.take(0) =~= Seq::<Bar>::empty());
        while i < bars.len()
            invariant
                i <= bars.len(),
                initial == position@,
                state.position == rehearsal@,
                replayed(*strategy, initial, bars@.take(i as int)) == Some(state),
            decreases bars.len() - i,
        {
            let bar = bars[i];
            proof {
                assert(bars@.take(i + 1).drop_last() =~= bars@.take(i as int));
                assert(bars@.take(i + 1).last() == bar);
                if replayed(*strategy, initial, bars@) is Some {
                    lemma_replay_prefix(*strategy, initial, bars@, i + 1);
                }
            }
            let market = MarketSnapshot {
                ticker: position.ticker.clone(),
                price: bar.close,
                as_of: bar.date,
            };
            let intents = match strategy.try_decide(
                &DailyContext { position: &rehearsal, market: &market },
            ) {
                Some(intents) => intents,
                None => return None,
            };
            let day_fills = settle_all(&intents, &bar);
            if rehearsal.try_apply_day(&day_fills, bar.date).is_none() {
                return None;
            }
            if try_equity_value(&rehearsal, bar.close).is_none() {
                return None;
            }
            proof {
                state = replayed_day(*strategy, state, initial.ticker, bar)->0;
            }
            i += 1;
        }
        assert(bars@.take(i as int) =~= bars@);
        Some(Backtest::run(strategy, position, bars))
    }
}

/// Settle a day's orders, keeping those that fill.
pub fn settle_all(intents: &[OrderIntent], bar: &Bar) -> (r: Vec<Fill>)
    ensures
        fills_of(r@) == settled_all(intents_of(intents@), *bar),
{
    let ghost all = intents_of(intents@);
    let mut fills: Vec<Fill> = Vec::new();
    let mut i: usize = 0;
    assert(all.take(0) =~= Seq::<IntentView>::empty());
    assert(fills_of(fills@) =~= Seq::<FillView>::empty());
    while i < intents.len()
        invariant
            i <= intents.len(),
            all == intents_of(intents@),
            fills_of(fills@) == settled_all(all.take(i as int), *bar),
        decreases intents.len() - i,
    {
        proof {
            assert(all.take(i + 1).drop_last() =~= all.take(i as int));
            assert(all.take(i + 1).last() == intents[i as int]@);
        }
        if let Some(fill) = settle(&intents[i], bar) {
            let ghost before = fills_of(fills@);
            fills.push(fill);
            assert(fills_of(fills@) =~= before.push(fill@));
        }
        i += 1;
    }
    assert(all.take(i as int) =~= all);
    fills
}

/// Account equity: the seed, the banked profit and the unrealized profit at a price.
pub fn equity_value(position: &Position, close: Price) -> (r: Money)
    requires
        equity_of(position@, close@) is Some,
    ensures
        equity_of(position@, close@) == Some(r@),
{
    let unrealized = match position.avg_price {
        Some(avg) if !position.is_flat() => close.total(position.shares) - avg.total(
            position.shares,
        ),
        _ => Money::zero(),
    };
    position.seed + position.realized_pnl + unrealized
}

/// Account equity; `None` where an amount leaves the range.
pub fn try_equity_value(position: &Position, close: Price) -> (r: Option<Money>)
    ensures
        match r {
            Some(m) => equity_of(position@, close@) == Some(m@),
            None => equity_of(position@, close@) is None,
        },
{
    let unrealized = match position.avg_price {
        Some(avg) if !position.is_flat() => {
            let value = match close.try_total(position.shares) {
                Some(v) => v,
                None => return None,
            };
            let cost = match avg.try_total(position.shares) {
                Some(c) => c,
                None => return None,
            };
            match value.checked_sub(cost) {
                Some(u) => u,
                None => return None,
            }
        },
        _ => Money::zero(),
    };
    let banked = match position.seed.checked_add(position.realized_pnl) {
        Some(b) => b,
        None => return None,
    };
    match banked.checked_add(unrealized) {
        Some(_) => Some(equity_value(position, close)),
        None => None,
    }
}

proof fn lemma_replay_prefix<S: Strategy>(
    strategy: S,
    position: PositionView,
    bars: Seq<Bar>,
    n: int,
)
    requires
        0 <= n <= bars.len(),
        replayed(strategy, position, bars) is Some,
    ensures
        replayed(strategy, position, bars.take(n)) is Some,
    decreases bars.len() - n,
{
    if n == bars.len() {
        assert(bars.take(n) =~= bars);
    } else {
        lemma_replay_prefix(strategy, position, bars, n + 1);
        assert(bars.take(n + 1).drop_last() =~= bars.take(n));
    }
}

proof fn lemma_day_cycles(p: PositionView, fills: Seq<FillView>, date: Civil)
    requires
        day_applied(p, fills, date) is Some,
    ensures
        ({
            let (q, completed) = day_applied(p, fills, date)->0;
            q.cycle_index >= p.cycle_index + if completed {
                1int
            } else {
                0int
            }
        }),
    decreases fills.len(),
{
    if fills.len() > 0 {
        lemma_day_cycles(p, fills.drop_last(), date);
        let (q, _) = day_applied(p, fills.drop_last(), date)->0;
        let (r, completed) = stepped(q, fills.last(), date)->0;
        law_sell_out_banks_the_cycle(q, fills.last(), date, r, completed);
    }
}

/// A replay marks every day to market, trades on no more days than there are, and depends on
/// the bars alone: a longer replay begins with the shorter one.
pub proof fn law_replay_is_day_by_day<S: Strategy>(
    strategy: S,
    position: PositionView,
    bars: Seq<Bar>,
)
    requires
        replayed(strategy, position, bars) is Some,
    ensures
        ({
            let replay = replayed(strategy, position, bars)->0;
            &&& replay.curve.len() == bars.len()
            &&& replay.trading_days <= bars.len()
            &&& bars.len() > 0 ==> replay.curve.drop_last() == replayed(
                strategy,
                position,
                bars.drop_last(),
            )->0.curve
            &&& forall|i: int|
                0 <= i < bars.len() ==> (#[trigger] replay.curve[i]).0 == bars[i].date@
        }),
    decreases bars.len(),
{
    if bars.len() > 0 {
        law_replay_is_day_by_day(strategy, position, bars.drop_last());
        let before = replayed(strategy, position, bars.drop_last())->0;
        let replay = replayed(strategy, position, bars)->0;
        assert(replay.curve.drop_last() =~= before.curve);
        assert forall|i: int| 0 <= i < bars.len() implies (#[trigger] replay.curve[i]).0
            == bars[i].date@ by {
            if i < bars.len() - 1 {
                assert(replay.curve[i] == before.curve[i]);
            }
        }
    }
}

/// The fills of a day are those of the orders that the bar fills, each once, in the order of
/// the orders.
pub proof fn law_every_order_that_fills_is_kept(intents: Seq<IntentView>, bar: Bar)
    ensures
        settled_all(intents, bar) == intents.filter(
            |intent: IntentView| settled(intent, bar) is Some,
        ).map_values(|intent: IntentView| settled(intent, bar)->0),
        settled_all(intents, bar).len() > 0 <==> exists|i: int|
            0 <= i < intents.len() && settled(#[trigger] intents[i], bar) is Some,
    decreases intents.len(),
{
    reveal(Seq::filter);
    let keep = |intent: IntentView| settled(intent, bar) is Some;
    let fill = |intent: IntentView| settled(intent, bar)->0;
    if intents.len() > 0 {
        let front = intents.drop_last();
        law_every_order_that_fills_is_kept(front, bar);
        if keep(intents.last()) {
            assert(front.filter(keep).push(intents.last()).map_values(fill) =~= front.filter(
                keep,
            ).map_values(fill).push(fill(intents.last())));
            assert(settled(intents[intents.len() - 1], bar) is Some);
        } else {
            if settled_all(front, bar).len() > 0 {
                let i = choose|i: int|
                    0 <= i < front.len() && settled(#[trigger] front[i], bar) is Some;
                assert(settled(intents[i], bar) is Some);
            }
            if exists|i: int|
                0 <= i < intents.len() && settled(#[trigger] intents[i], bar) is Some {
                let i = choose|i: int|
                    0 <= i < intents.len() && settled(#[trigger] intents[i], bar) is Some;
                assert(settled(front[i], bar) is Some);
            }
        }
    } else {
        assert(intents.filter(keep).map_values(fill) =~= Seq::<FillView>::empty());
    }
}

/// Equity is the seed and the banked profit, and while shares are held what they are worth at
/// the close less what they cost at the average.
pub proof fn law_equity_marks_the_shares_to_the_close(p: PositionView, close: Dec)
    ensures
        p.shares == 0 || p.avg_price is None ==> equity_of(p, close) == match decimal_sum(
            p.seed,
            p.realized_pnl,
        ) {
            Some(banked) => decimal_sum(banked, (0i128, 0u32)),
            None => None,
        },
        p.shares > 0 && p.avg_price is Some && decimal_sum(p.seed, p.realized_pnl) is Some
            && decimal_product(close, (p.shares as i128, 0u32)) is Some && decimal_product(
            p.avg_price->0,
            (p.shares as i128, 0u32),
        ) is Some ==> equity_of(p, close) == match decimal_difference(
            decimal_product(close, (p.shares as i128, 0u32))->0,
            decimal_product(p.avg_price->0, (p.shares as i128, 0u32))->0,
        ) {
            Some(unrealized) => decimal_sum(
                decimal_sum(p.seed, p.realized_pnl)->0,
                unrealized,
            ),
            None => None,
        },
        equity_of(p, close) is Some ==> decimal_sum(p.seed, p.realized_pnl) is Some,
        equity_of(p, close) is Some && p.shares > 0 && p.avg_price is Some ==> decimal_product(
            close,
            (p.shares as i128, 0u32),
        ) is Some && decimal_product(p.avg_price->0, (p.shares as i128, 0u32)) is Some,
{
}

/// A cycle completed on a day shows in the cycle count of the position, and only then.
proof fn lemma_completed_days_count(p: PositionView, fills: Seq<FillView>, date: Civil)
    requires
        day_applied(p, fills, date) is Some,
    ensures
        ({
            let (q, completed) = day_applied(p, fills, date)->0;
            &&& completed <==> q.cycle_index > p.cycle_index
            &&& q.cycle_index >= p.cycle_index
        }),
    decreases fills.len(),
{
    if fills.len() > 0 {
        lemma_completed_days_count(p, fills.drop_last(), date);
        let (q, _) = day_applied(p, fills.drop_last(), date)->0;
        let (r, completed) = stepped(q, fills.last(), date)->0;
        law_sell_out_banks_the_cycle(q, fills.last(), date, r, completed);
    }
}

/// What one day adds to a replay. The strategy decides on the position that the days before
/// left, at the day's close. The orders that the bar fills are applied to that position. The
/// day counts as a trading day exactly where an order filled, and as a completed cycle exactly
/// where the position's cycle count rose. Last, the position is marked to the close.
pub proof fn law_a_day_is_decided_settled_and_marked<S: Strategy>(
    strategy: S,
    position: PositionView,
    bars: Seq<Bar>,
)
    requires
        bars.len() > 0,
        replayed(strategy, position, bars) is Some,
    ensures
        replayed(strategy, position, bars.drop_last()) is Some,
        ({
            let before = replayed(strategy, position, bars.drop_last())->0;
            let after = replayed(strategy, position, bars)->0;
            let bar = bars.last();
            let decision = strategy.decision(
                before.position,
                MarketView { ticker: position.ticker, price: bar.close@, as_of: bar.date@ },
            );
            let fills = decision->0.filter(
                |intent: IntentView| settled(intent, bar) is Some,
            ).map_values(|intent: IntentView| settled(intent, bar)->0);
            &&& decision is Some
            &&& day_applied(before.position, fills, bar.date@) is Some
            &&& (day_applied(before.position, fills, bar.date@)->0).0 == after.position
            &&& fills.len() > 0 ==> after.trading_days == before.trading_days + 1
            &&& fills.len() == 0 ==> after.trading_days == before.trading_days
            &&& after.position.cycle_index > before.position.cycle_index ==> after.cycles
                == before.cycles + 1
            &&& after.position.cycle_index <= before.position.cycle_index ==> after.cycles
                == before.cycles
            &&& after.curve.len() == before.curve.len() + 1
            &&& after.curve.last().0 == bar.date@
            &&& equity_of(after.position, bar.close@) == Some(after.curve.last().1)
        }),
{
    let before = replayed(strategy, position, bars.drop_last())->0;
    let bar = bars.last();
    let intents = strategy.decision(
        before.position,
        MarketView { ticker: position.ticker, price: bar.close@, as_of: bar.date@ },
    )->0;
    law_every_order_that_fills_is_kept(intents, bar);
    lemma_completed_days_count(before.position, settled_all(intents, bar), bar.date@);
}

/// A replay starts from the position given, with nothing counted and nothing marked.
pub proof fn law_a_replay_starts_from_the_position<S: Strategy>(
    strategy: S,
    position: PositionView,
)
    ensures
        replayed(strategy, position, Seq::empty()) is Some,
        ({
            let start = replayed(strategy, position, Seq::empty())->0;
            start.position == position && start.trading_days == 0 && start.cycles == 0
                && start.curve.len() == 0
        }),
{
}

/// A report names the ticker and the seed it started with, spans the first to the last bar,
/// counts all of them, and ends on the equity that its curve ends on.
pub proof fn law_a_report_spans_the_bars<S: Strategy>(
    report: BacktestReport,
    strategy: S,
    position: PositionView,
    bars: Seq<Bar>,
)
    requires
        bars.len() > 0,
        replayed(strategy, position, bars) is Some,
        report.reports(position, bars, replayed(strategy, position, bars)->0),
    ensures
        report.ticker@ == position.ticker,
        report.start@ == bars[0].date@,
        report.end@ == bars[bars.len() - 1].date@,
        report.initial_seed@ == position.seed,
        report.total_days == bars.len(),
        report.realized_pnl@ == replayed(strategy, position, bars)->0.position.realized_pnl,
        report.cycles_completed == replayed(strategy, position, bars)->0.cycles,
        report.trading_days == replayed(strategy, position, bars)->0.trading_days,
        report.equity_curve@.len() == bars.len(),
        report.equity_curve@[bars.len() - 1].1@ == report.final_equity@,
        forall|i: int|
            0 <= i < bars.len() ==> (#[trigger] report.equity_curve@[i]).0@ == bars[i].date@,
{
    law_replay_is_day_by_day(strategy, position, bars);
    law_a_day_is_decided_settled_and_marked(strategy, position, bars);
    let replay = replayed(strategy, position, bars)->0;
    assert(curve_of(report.equity_curve@)[bars.len() - 1] == replay.curve.last());
    assert forall|i: int| 0 <= i < bars.len() implies (#[trigger] report.equity_curve@[i]).0@
        == bars[i].date@ by {
        assert(curve_of(report.equity_curve@)[i] == replay.curve[i]);
    }
}

} // verus!

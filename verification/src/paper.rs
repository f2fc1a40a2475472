//! An in-memory paper broker: a simulator with quotes, account queries, and order placement.
//! It settles orders with the same rule that the backtest uses, so paper trading and
//! backtests agree on fills.

use crate::date::{earlier, Civil, Date};
use crate::decimal::{decimal_difference, decimal_product, decimal_sum, minus, plus, Dec};
use crate::error::{DomainError, Failure};
use crate::lookup::{first_at, lemma_first_at, lemma_is_absent, lemma_is_first};
use crate::market::{Bar, BrokerId, OrderId, Quote, Side, Ticker};
use crate::money::{Money, Shares};
use crate::order::{IntentView, OrderIntent};
use crate::ports::{BrokerInfo, Capabilities};
use crate::position::{
    holding_after, value_of, Fill, FillView, Holding, HoldingView,
};
use crate::settlement::{settle, settled};
use crate::text::{digits, join2, number_text};
use vstd::prelude::*;

verus! {

/// The tickers of a list of holdings.
pub open spec fn holding_tickers(holdings: Seq<HoldingView>) -> Seq<Seq<char>> {
    Seq::new(holdings.len(), |i: int| holdings[i].ticker)
}

/// The tickers of a list of bars.
pub open spec fn bar_tickers(bars: Seq<(Seq<char>, Bar)>) -> Seq<Seq<char>> {
    Seq::new(bars.len(), |i: int| bars[i].0)
}

/// The state of a paper broker.
pub struct PaperView {
    pub cash: Dec,
    pub holdings: Seq<HoldingView>,
    pub bars: Seq<(Seq<char>, Bar)>,
    pub fills: Seq<(Seq<char>, FillView)>,
    pub next_id: u64,
}

impl PaperView {
    /// The bar of a ticker.
    pub open spec fn bar(self, ticker: Seq<char>) -> Option<Bar> {
        match first_at(bar_tickers(self.bars), ticker) {
            Some(i) => Some(self.bars[i].1),
            None => None,
        }
    }

    /// The holding of a ticker: an empty one where there is none.
    pub open spec fn holding(self, ticker: Seq<char>) -> HoldingView {
        match first_at(holding_tickers(self.holdings), ticker) {
            Some(i) => self.holdings[i],
            None => HoldingView { ticker, shares: 0, avg_price: None },
        }
    }

    /// The state with another holding of its ticker.
    pub open spec fn with_holding(self, holding: HoldingView) -> PaperView {
        PaperView {
            holdings: match first_at(holding_tickers(self.holdings), holding.ticker) {
                Some(i) => self.holdings.update(i, holding),
                None => self.holdings.push(holding),
            },
            ..self
        }
    }

    /// What of a fill the broker carries out: a sell of at most what is held.
    pub open spec fn capped(self, ticker: Seq<char>, fill: FillView) -> FillView {
        let held = self.holding(ticker).shares;
        if fill.side == Side::Sell && fill.shares > held {
            FillView { shares: held, ..fill }
        } else {
            fill
        }
    }

    /// The state after a fill is carried out.
    pub open spec fn after_fill(self, ticker: Seq<char>, fill: FillView) -> Option<PaperView> {
        let cash = match fill.side {
            Side::Buy => minus(Some(self.cash), value_of(fill)),
            Side::Sell => plus(Some(self.cash), value_of(fill)),
        };
        match (holding_after(self.holding(ticker), fill), cash) {
            (Some(holding), Some(cash)) => Some(
                PaperView {
                    cash,
                    fills: self.fills.push((ticker, fill)),
                    ..self.with_holding(holding)
                },
            ),
            _ => None,
        }
    }

    /// The state after an order is placed against a bar; `None` where a number leaves the
    /// range.
    pub open spec fn after_order(self, ticker: Seq<char>, bar: Bar, order: IntentView) -> Option<
        PaperView,
    > {
        let numbered = PaperView { next_id: (self.next_id + 1) as u64, ..self };
        if self.next_id == u64::MAX {
            None
        } else {
            match settled(order, bar) {
                None => Some(numbered),
                Some(fill) => {
                    let done = self.capped(ticker, fill);
                    if done.shares == 0 {
                        Some(numbered)
                    } else {
                        numbered.after_fill(ticker, done)
                    }
                },
            }
        }
    }
}

/// The identifier of the `n`-th paper order.
pub open spec fn paper_id(n: u64) -> Seq<char> {
    "paper-"@ + digits(n as nat)
}

/// A paper-trading broker backed entirely by in-memory state.
#[derive(Debug)]
pub struct PaperBroker {
    cash: Money,
    holdings: Vec<Holding>,
    bars: Vec<(Ticker, Bar)>,
    fills: Vec<(Ticker, Fill)>,
    next_id: u64,
}

/// The models of a list of holdings.
pub open spec fn holdings_of(holdings: Seq<Holding>) -> Seq<HoldingView> {
    Seq::new(holdings.len(), |i: int| holdings[i]@)
}

/// The models of a list of bars by ticker.
pub open spec fn bars_of(bars: Seq<(Ticker, Bar)>) -> Seq<(Seq<char>, Bar)> {
    Seq::new(bars.len(), |i: int| (bars[i].0@, bars[i].1))
}

/// The models of a list of fills by ticker.
pub open spec fn ticker_fills_of(fills: Seq<(Ticker, Fill)>) -> Seq<(Seq<char>, FillView)> {
    Seq::new(fills.len(), |i: int| (fills[i].0@, fills[i].1@))
}

impl View for PaperBroker {
    type V = PaperView;

    closed spec fn view(&self) -> PaperView {
        PaperView {
            cash: self.cash@,
            holdings: holdings_of(self.holdings@),
            bars: bars_of(self.bars@),
            fills: ticker_fills_of(self.fills@),
            next_id: self.next_id,
        }
    }
}

/// The holdings with shares, in order: closed lots are not reported.
pub open spec fn open_lots(holdings: Seq<HoldingView>) -> Seq<HoldingView>
    decreases holdings.len(),
{
    if holdings.len() == 0 {
        Seq::empty()
    } else {
        let before = open_lots(holdings.drop_last());
        if holdings.last().shares == 0 {
            before
        } else {
            before.push(holdings.last())
        }
    }
}

/// The fills of a ticker on or after a day, in order.
pub open spec fn ticker_fills_since(
    fills: Seq<(Seq<char>, FillView)>,
    ticker: Seq<char>,
    since: Civil,
) -> Seq<FillView>
    decreases fills.len(),
{
    if fills.len() == 0 {
        Seq::empty()
    } else {
        let before = ticker_fills_since(fills.drop_last(), ticker, since);
        let (t, fill) = fills.last();
        if t == ticker && !earlier(fill.at, since) {
            before.push(fill)
        } else {
            before
        }
    }
}

impl PaperBroker {
    /// Create a paper broker seeded with starting cash.
    pub fn new(initial_cash: Money) -> (r: PaperBroker)
        ensures
            r@ == (PaperView {
                cash: initial_cash@,
                holdings: Seq::empty(),
                bars: Seq::empty(),
                fills: Seq::empty(),
                next_id: 0,
            }),
    {
        let r = PaperBroker {
            cash: initial_cash,
            holdings: Vec::new(),
            bars: Vec::new(),
            fills: Vec::new(),
            next_id: 0,
        };
        assert(r@.holdings =~= Seq::empty());
        assert(r@.bars =~= Seq::empty());
        assert(r@.fills =~= Seq::empty());
        r
    }

    /// The place of a ticker's bar.
    fn bar_at(&self, ticker: &Ticker) -> (r: Option<usize>)
        ensures
            match r {
                Some(i) => i < self.bars.len() && first_at(bar_tickers(self@.bars), ticker@)
                    == Some(i as int),
                None => first_at(bar_tickers(self@.bars), ticker@) is None,
            },
    {
        let ghost keys = bar_tickers(self@.bars);
        let mut i: usize = 0;
        while i < self.bars.len()
            invariant
                i <= self.bars.len(),
                keys == bar_tickers(self@.bars),
                forall|j: int| 0 <= j < i ==> #[trigger] keys[j] != ticker@,
            decreases self.bars.len() - i,
        {
            assert(keys[i as int] == self.bars[i as int].0@);
            if self.bars[i].0 == *ticker {
                proof {
                    lemma_is_first(keys, ticker@, i as int);
                }
                return Some(i);
            }
            i += 1;
        }
        proof {
            lemma_is_absent(keys, ticker@);
        }
        None
    }

    /// The place of a ticker's holding.
    fn holding_at(&self, ticker: &Ticker) -> (r: Option<usize>)
        ensures
            match r {
                Some(i) => i < self.holdings.len() && first_at(
                    holding_tickers(self@.holdings),
                    ticker@,
                ) == Some(i as int),
                None => first_at(holding_tickers(self@.holdings), ticker@) is None,
            },
    {
        let ghost keys = holding_tickers(self@.holdings);
        let mut i: usize = 0;
        while i < self.holdings.len()
            invariant
                i <= self.holdings.len(),
                keys == holding_tickers(self@.holdings),
                forall|j: int| 0 <= j < i ==> #[trigger] keys[j] != ticker@,
            decreases self.holdings.len() - i,
        {
            assert(keys[i as int] == self.holdings[i as int].ticker@);
            if self.holdings[i].ticker == *ticker {
                proof {
                    lemma_is_first(keys, ticker@, i as int);
                }
                return Some(i);
            }
            i += 1;
        }
        proof {
            lemma_is_absent(keys, ticker@);
        }
        None
    }

    /// Feed the current daily bar for a ticker. Orders placed afterwards settle against it,
    /// and its close is the quote.
    pub fn set_market(&mut self, ticker: Ticker, bar: Bar)
        ensures
            final(self)@.bar(ticker@) == Some(bar),
            forall|other: Seq<char>|
                other != ticker@ ==> #[trigger] final(self)@.bar(other) == old(self)@.bar(other),
            final(self)@ == (PaperView { bars: final(self)@.bars, ..old(self)@ }),
    {
        let ghost name = ticker@;
        let ghost before = self@.bars;
        let ghost old_keys = bar_tickers(before);
        match self.bar_at(&ticker) {
            Some(i) => {
                self.bars.set(i, (ticker, bar));
                proof {
                    let keys = bar_tickers(self@.bars);
                    assert(self@.bars =~= before.update(i as int, (name, bar)));
                    lemma_first_at(old_keys, name);
                    assert(keys =~= old_keys);
                    assert forall|other: Seq<char>| other != name implies #[trigger] self@.bar(
                        other,
                    ) == old(self)@.bar(other) by {
                        lemma_first_at(old_keys, other);
                    }
                }
            },
            None => {
                self.bars.push((ticker, bar));
                proof {
                    let keys = bar_tickers(self@.bars);
                    assert(self@.bars =~= before.push((name, bar)));
                    assert(keys.drop_last() =~= old_keys);
                    assert(keys.last() == name);
                    assert forall|other: Seq<char>| other != name implies #[trigger] first_at(
                        keys,
                        other,
                    ) == first_at(old_keys, other) by {}
                    assert forall|other: Seq<char>| other != name implies #[trigger] self@.bar(
                        other,
                    ) == old(self)@.bar(other) by {
                        lemma_first_at(old_keys, other);
                    }
                }
            },
        }
    }

    /// The latest quote of a ticker: the close of its bar.
    pub fn quote(&self, ticker: &Ticker) -> (r: Result<Quote, DomainError>)
        ensures
            match r {
                Ok(quote) => self@.bar(ticker@) matches Some(bar) && quote.ticker@ == ticker@
                    && quote.price@ == bar.close@ && quote.as_of@ == bar.date@,
                Err(e) => self@.bar(ticker@) is None && e@ == Failure::MarketData(
                    "no quote for "@ + ticker@,
                ),
            },
    {
        match self.bar_at(ticker) {
            Some(i) => {
                let bar = self.bars[i].1;
                Ok(Quote { ticker: ticker.clone(), price: bar.close, as_of: bar.date })
            },
            None => Err(DomainError::MarketData(join2("no quote for ", ticker.as_str()))),
        }
    }

    /// The holdings. Like the live adapters, fully closed lots are not reported.
    pub fn holdings(&self) -> (r: Vec<Holding>)
        ensures
            holdings_of(r@) == open_lots(self@.holdings),
    {
        let ghost all = self@.holdings;
        let mut r: Vec<Holding> = Vec::new();
        let mut i: usize = 0;
        assert(all.take(0) =~= Seq::<HoldingView>::empty());
        assert(holdings_of(r@) =~= Seq::<HoldingView>::empty());
        while i < self.holdings.len()
            invariant
                i <= self.holdings.len(),
                all == self@.holdings,
                holdings_of(r@) == open_lots(all.take(i as int)),
            decreases self.holdings.len() - i,
        {
            proof {
                assert(all.take(i + 1).drop_last() =~= all.take(i as int));
                assert(all.take(i + 1).last() == self.holdings[i as int]@);
            }
            if !self.holdings[i].shares.is_zero() {
                let ghost before = holdings_of(r@);
                r.push(self.holdings[i].clone());
                assert(holdings_of(r@) =~= before.push(self.holdings[i as int]@));
            }
            i += 1;
        }
        assert(all.take(i as int) =~= all);
        r
    }

    /// The cash.
    pub fn balance(&self) -> (r: Money)
        ensures
            r@ == self@.cash,
    {
        self.cash
    }

    /// The fills of a ticker on or after a day.
    pub fn fills_since(&self, ticker: &Ticker, since: Date) -> (r: Vec<Fill>)
        ensures
            crate::position::fills_of(r@) == ticker_fills_since(self@.fills, ticker@, since@),
    {
        let ghost all = self@.fills;
        let mut r: Vec<Fill> = Vec::new();
        let mut i: usize = 0;
        assert(all.take(0) =~= Seq::<(Seq<char>, FillView)>::empty());
        assert(crate::position::fills_of(r@) =~= Seq::<FillView>::empty());
        while i < self.fills.len()
            invariant
                i <= self.fills.len(),
                all == self@.fills,
                crate::position::fills_of(r@) == ticker_fills_since(
                    all.take(i as int),
                    ticker@,
                    since@,
                ),
            decreases self.fills.len() - i,
        {
            proof {
                assert(all.take(i + 1).drop_last() =~= all.take(i as int));
                assert(all.take(i + 1).last() == (
                    self.fills[i as int].0@,
                    self.fills[i as int].1@,
                ));
            }
            let fill = self.fills[i].1;
            if self.fills[i].0 == *ticker && !fill.at.is_before(&since) {
                let ghost before = crate::position::fills_of(r@);
                r.push(fill);
                assert(crate::position::fills_of(r@) =~= before.push(fill@));
            }
            i += 1;
        }
        assert(all.take(i as int) =~= all);
        r
    }

    /// Place an order: it settles against the ticker's bar at once. A sell can never exceed
    /// the held quantity, otherwise crediting cash for the full requested size would invent
    /// money.
    pub fn place(&mut self, ticker: &Ticker, order: &OrderIntent) -> (r: Result<
        OrderId,
        DomainError,
    >)
        requires
            old(self)@.bar(ticker@) matches Some(bar) ==> old(self)@.after_order(
                ticker@,
                bar,
                order@,
            ) is Some,
        ensures
            match r {
                Ok(id) => old(self)@.bar(ticker@) matches Some(bar) && old(self)@.after_order(
                    ticker@,
                    bar,
                    order@,
                ) == Some(final(self)@) && id@ == paper_id(final(self)@.next_id),
                Err(e) => old(self)@.bar(ticker@) is None && *final(self) == *old(self) && e@
                    == Failure::MarketData("no market bar for "@ + ticker@),
            },
    {
        let bar = match self.bar_at(ticker) {
            Some(i) => self.bars[i].1,
            None => {
                return Err(DomainError::MarketData(join2("no market bar for ", ticker.as_str())));
            },
        };
        self.next_id = self.next_id + 1;
        let number = number_text(self.next_id);
        let id = OrderId::new(join2("paper-", number.as_str()).as_str());
        if let Some(settled_fill) = settle(order, &bar) {
            let mut fill = settled_fill;
            if fill.side == Side::Sell {
                let held: u32 = match self.holding_at(ticker) {
                    Some(i) => self.holdings[i].shares.get(),
                    None => 0,
                };
                if fill.shares.get() > held {
                    fill.shares = Shares::new(held);
                }
            }
            if !fill.shares.is_zero() {
                let ghost before = self@;
                self.hold(ticker, &fill);
                match fill.side {
                    Side::Buy => {
                        self.cash = self.cash - fill.value();
                    },
                    Side::Sell => {
                        self.cash = self.cash + fill.value();
                    },
                }
                self.fills.push((ticker.clone(), fill));
                assert(self@.fills =~= before.fills.push((ticker@, fill@)));
            }
        }
        Ok(id)
    }

    /// Apply a fill to the holding of its ticker.
    fn hold(&mut self, ticker: &Ticker, fill: &Fill)
        requires
            holding_after(old(self)@.holding(ticker@), fill@) is Some,
        ensures
            final(self)@ == old(self)@.with_holding(
                holding_after(old(self)@.holding(ticker@), fill@)->0,
            ),
            final(self).cash == old(self).cash,
            final(self).fills == old(self).fills,
    {
        let ghost before = self@;
        match self.holding_at(ticker) {
            Some(i) => {
                let mut holding = self.holdings[i].clone();
                holding.apply_fill(fill);
                let ghost after = holding@;
                self.holdings.set(i, holding);
                proof {
                    lemma_first_at(holding_tickers(before.holdings), ticker@);
                    assert(self@.holdings =~= before.holdings.update(i as int, after));
                }
            },
            None => {
                let mut holding = Holding::empty(ticker.clone());
                holding.apply_fill(fill);
                let ghost after = holding@;
                self.holdings.push(holding);
                assert(self@.holdings =~= before.holdings.push(after));
            },
        }
    }

    /// Place an order; `None`, with nothing changed, where a number leaves the range.
    pub fn try_place(&mut self, ticker: &Ticker, order: &OrderIntent) -> (r: Option<
        Result<OrderId, DomainError>,
    >)
        ensures
            match r {
                Some(Ok(id)) => old(self)@.bar(ticker@) matches Some(bar) && old(self)@.after_order(
                    ticker@,
                    bar,
                    order@,
                ) == Some(final(self)@) && id@ == paper_id(final(self)@.next_id),
                Some(Err(e)) => old(self)@.bar(ticker@) is None && *final(self) == *old(self) && e@
                    == Failure::MarketData("no market bar for "@ + ticker@),
                None => *final(self) == *old(self) && (old(self)@.bar(ticker@) matches Some(bar)
                    && old(self)@.after_order(ticker@, bar, order@) is None),
            },
    {
        if let Some(i) = self.bar_at(ticker) {
            if self.next_id == u64::MAX {
                return None;
            }
            if let Some(settled_fill) = settle(order, &self.bars[i].1) {
                let mut fill = settled_fill;
                let mut holding = match self.holding_at(ticker) {
                    Some(i) => self.holdings[i].clone(),
                    None => Holding::empty(ticker.clone()),
                };
                if fill.side == Side::Sell && fill.shares.get() > holding.shares.get() {
                    fill.shares = holding.shares;
                }
                if !fill.shares.is_zero() {
                    if !holding.try_apply_fill(&fill) {
                        return None;
                    }
                    let value = match fill.try_value() {
                        Some(v) => v,
                        None => return None,
                    };
                    let fits = match fill.side {
                        Side::Buy => self.cash.checked_sub(value).is_some(),
                        Side::Sell => self.cash.checked_add(value).is_some(),
                    };
                    if !fits {
                        return None;
                    }
                }
            }
        }
        Some(self.place(ticker, order))
    }

    /// Paper orders settle on placement, so there is nothing to cancel.
    pub fn cancel(&self, _id: &OrderId) -> (r: Result<(), DomainError>)
        ensures
            r is Ok,
    {
        Ok(())
    }
}

impl BrokerInfo for PaperBroker {
    open spec fn broker(&self) -> BrokerId {
        BrokerId::Paper
    }

    open spec fn abilities(&self) -> Capabilities {
        Capabilities {
            realtime_quotes: false,
            paper_account: true,
            order_placement: true,
            overseas: true,
        }
    }

    fn id(&self) -> (r: BrokerId) {
        BrokerId::Paper
    }

    fn capabilities(&self) -> (r: Capabilities) {
        Capabilities {
            realtime_quotes: false,
            paper_account: true,
            order_placement: true,
            overseas: true,
        }
    }
}

/// A sell never invents money: it is carried out for at most the shares held, and the cash
/// grows by the value of just those.
pub proof fn law_sells_never_invent_cash(
    before: PaperView,
    ticker: Seq<char>,
    bar: Bar,
    order: IntentView,
    after: PaperView,
)
    requires
        order.side == Side::Sell,
        before.after_order(ticker, bar, order) == Some(after),
    ensures
        ({
            ||| after == (PaperView { next_id: after.next_id, ..before })
            ||| after.fills.len() == before.fills.len() + 1 && ({
                let (t, fill) = after.fills.last();
                &&& t == ticker
                &&& fill.side == Side::Sell
                &&& 0 < fill.shares <= order.shares
                &&& fill.shares <= before.holding(ticker).shares
                &&& plus(Some(before.cash), value_of(fill)) == Some(after.cash)
                &&& after.holding(ticker).shares == before.holding(ticker).shares - fill.shares
            })
        }),
{
    if let Some(fill) = settled(order, bar) {
        let done = before.capped(ticker, fill);
        if done.shares > 0 {
            let numbered = PaperView { next_id: (before.next_id + 1) as u64, ..before };
            let holding = holding_after(numbered.holding(ticker), done)->0;
            lemma_with_holding(numbered, holding);
            lemma_first_at(holding_tickers(before.holdings), ticker);
            assert(numbered.holding(ticker) == before.holding(ticker));
            assert(after.holding(ticker) == numbered.with_holding(holding).holding(ticker));
        }
    }
}

/// The paper broker fills an order exactly as a backtest does on the same bar, as long as a
/// sell stays within the holding: with the fill that the bar gives it, or not at all.
pub proof fn law_paper_fills_as_the_backtest(
    before: PaperView,
    ticker: Seq<char>,
    bar: Bar,
    order: IntentView,
    after: PaperView,
)
    requires
        before.after_order(ticker, bar, order) == Some(after),
        order.side == Side::Sell ==> order.shares <= before.holding(ticker).shares,
    ensures
        after.fills == match settled(order, bar) {
            Some(fill) => before.fills.push((ticker, fill)),
            None => before.fills,
        },
{
}

/// A holding that was put in is the one found.
proof fn lemma_with_holding(state: PaperView, holding: HoldingView)
    ensures
        state.with_holding(holding).holding(holding.ticker) == holding,
{
    let keys = holding_tickers(state.holdings);
    let after = state.with_holding(holding);
    let new_keys = holding_tickers(after.holdings);
    lemma_first_at(keys, holding.ticker);
    match first_at(keys, holding.ticker) {
        Some(i) => {
            assert(new_keys =~= keys);
        },
        None => {
            assert(new_keys.drop_last() =~= keys);
            assert(new_keys.last() == holding.ticker);
        },
    }
}

/// What an order does to the account, whatever its side. It is numbered, and moves no bar and
/// no other ticker's holding. Where the bar does not fill it, or there is nothing to sell, that
/// is all. Where it is filled, the fill is recorded for the ticker; a buy pays its price times
/// its shares and adds the shares, and a sell is paid it and takes them away.
pub proof fn law_an_order_moves_cash_and_shares_by_its_fill(
    before: PaperView,
    ticker: Seq<char>,
    bar: Bar,
    order: IntentView,
    after: PaperView,
)
    requires
        before.after_order(ticker, bar, order) == Some(after),
    ensures
        after.next_id == before.next_id + 1,
        after.bars == before.bars,
        forall|other: Seq<char>|
            other != ticker ==> #[trigger] after.holding(other) == before.holding(other),
        settled(order, bar) is None ==> after.cash == before.cash && after.fills == before.fills
            && after.holdings == before.holdings,
        settled(order, bar) matches Some(fill) ==> {
            let held = before.holding(ticker).shares;
            let n: u32 = if order.side == Side::Sell && held < fill.shares {
                held
            } else {
                fill.shares
            };
            &&& n == 0 ==> after.cash == before.cash && after.fills == before.fills
                && after.holdings == before.holdings
            &&& n > 0 ==> after.fills == before.fills.push(
                (ticker, FillView { side: order.side, shares: n, price: fill.price, at: fill.at }),
            )
            &&& n > 0 ==> decimal_product(fill.price, (n as i128, 0u32)) is Some
            &&& n > 0 && order.side == Side::Buy ==> decimal_difference(
                before.cash,
                decimal_product(fill.price, (n as i128, 0u32))->0,
            ) == Some(after.cash) && after.holding(ticker).shares == held + n
            &&& n > 0 && order.side == Side::Sell ==> decimal_sum(
                before.cash,
                decimal_product(fill.price, (n as i128, 0u32))->0,
            ) == Some(after.cash) && after.holding(ticker).shares == held - n
        },
{
    let numbered = PaperView { next_id: (before.next_id + 1) as u64, ..before };
    if settled(order, bar) is Some {
        let fill = settled(order, bar)->0;
        let done = before.capped(ticker, fill);
        assert(fill.side == order.side);
        assert(numbered.holding(ticker) == before.holding(ticker));
        if done.shares > 0 {
            let holding = holding_after(numbered.holding(ticker), done)->0;
            lemma_first_at(holding_tickers(before.holdings), ticker);
            assert(holding.ticker == ticker);
            lemma_with_holding(numbered, holding);
            assert(after.holdings == numbered.with_holding(holding).holdings);
            assert(after.holding(ticker) == numbered.with_holding(holding).holding(ticker));
            assert forall|other: Seq<char>| other != ticker implies #[trigger] after.holding(other)
                == before.holding(other) by {
                lemma_other_holdings(numbered, holding, other);
                assert(after.holding(other) == numbered.with_holding(holding).holding(other));
            }
        }
    }
}

/// Putting a holding in changes no other one.
proof fn lemma_other_holdings(state: PaperView, holding: HoldingView, other: Seq<char>)
    requires
        other != holding.ticker,
    ensures
        state.with_holding(holding).holding(other) == state.holding(other),
{
    let keys = holding_tickers(state.holdings);
    let new_keys = holding_tickers(state.with_holding(holding).holdings);
    lemma_first_at(keys, holding.ticker);
    lemma_first_at(keys, other);
    match first_at(keys, holding.ticker) {
        Some(i) => {
            assert(new_keys =~= keys);
        },
        None => {
            assert(new_keys.drop_last() =~= keys);
            assert(new_keys.last() == holding.ticker);
        },
    }
}

/// The lots reported are those with shares, each as it stands, in order.
pub proof fn law_closed_lots_alone_are_left_out(holdings: Seq<HoldingView>)
    ensures
        open_lots(holdings) == holdings.filter(|h: HoldingView| h.shares > 0),
    decreases holdings.len(),
{
    reveal(Seq::filter);
    if holdings.len() > 0 {
        law_closed_lots_alone_are_left_out(holdings.drop_last());
    }
}

/// The fills reported are those of the ticker that are not from before the day, in order.
pub proof fn law_fills_are_reported_by_ticker_and_day(
    fills: Seq<(Seq<char>, FillView)>,
    ticker: Seq<char>,
    since: Civil,
)
    ensures
        ticker_fills_since(fills, ticker, since) == fills.filter(
            |entry: (Seq<char>, FillView)| entry.0 == ticker && !earlier(entry.1.at, since),
        ).map_values(|entry: (Seq<char>, FillView)| entry.1),
    decreases fills.len(),
{
    reveal(Seq::filter);
    let keep = |entry: (Seq<char>, FillView)| entry.0 == ticker && !earlier(entry.1.at, since);
    let pick = |entry: (Seq<char>, FillView)| entry.1;
    if fills.len() > 0 {
        law_fills_are_reported_by_ticker_and_day(fills.drop_last(), ticker, since);
        let front = fills.drop_last().filter(keep);
        if keep(fills.last()) {
            assert(front.push(fills.last()).map_values(pick) =~= front.map_values(pick).push(
                fills.last().1,
            ));
        }
    } else {
        assert(fills.filter(keep).map_values(pick) =~= Seq::<FillView>::empty());
    }
}

/// The holding of a ticker is the first one of that name, and an empty one where none is.
pub proof fn law_a_holding_is_found_by_its_ticker(state: PaperView, ticker: Seq<char>)
    ensures
        forall|i: int|
            0 <= i < state.holdings.len() && (#[trigger] state.holdings[i]).ticker == ticker && (
            forall|j: int| 0 <= j < i ==> (#[trigger] state.holdings[j]).ticker != ticker)
                ==> state.holding(ticker) == state.holdings[i],
        (forall|j: int|
            0 <= j < state.holdings.len() ==> (#[trigger] state.holdings[j]).ticker != ticker)
            ==> state.holding(ticker).shares == 0 && state.holding(ticker).avg_price is None,
        state.holding(ticker).ticker == ticker,
{
    let keys = holding_tickers(state.holdings);
    lemma_first_at(keys, ticker);
    assert forall|i: int|
        0 <= i < state.holdings.len() && (#[trigger] state.holdings[i]).ticker == ticker && (forall|
            j: int,
        |
            0 <= j < i ==> (#[trigger] state.holdings[j]).ticker != ticker) implies state.holding(
        ticker,
    ) == state.holdings[i] by {
        assert forall|j: int| 0 <= j < i implies #[trigger] keys[j] != ticker by {
            assert(state.holdings[j].ticker != ticker);
        }
        assert(keys[i] == ticker);
        lemma_is_first(keys, ticker, i);
    }
    if first_at(keys, ticker) is Some {
        assert(state.holdings[first_at(keys, ticker)->0].ticker == ticker);
    }
}

/// Orders are named `paper-` and their number.
pub proof fn law_paper_orders_are_numbered(n: u64)
    ensures
        paper_id(n) == seq!['p', 'a', 'p', 'e', 'r', '-'] + digits(n as nat),
{
    reveal_strlit("paper-");
    assert("paper-"@ =~= seq!['p', 'a', 'p', 'e', 'r', '-']);
}

/// The paper broker is a paper account that places orders overseas.
pub proof fn law_paper_abilities(broker: PaperBroker)
    ensures
        broker.broker() == BrokerId::Paper,
        broker.abilities().paper_account,
        broker.abilities().order_placement,
        broker.abilities().overseas,
        !broker.abilities().realtime_quotes,
{
}

/// An order is carried out wherever it can be numbered and its amounts are in range: the new
/// average, the value, and the cash.
pub proof fn law_orders_in_range_are_carried_out(
    before: PaperView,
    ticker: Seq<char>,
    bar: Bar,
    order: IntentView,
)
    requires
        before.next_id < u64::MAX,
        settled(order, bar) matches Some(fill) ==> {
            let held = before.holding(ticker).shares;
            let n: u32 = if order.side == Side::Sell && held < fill.shares {
                held
            } else {
                fill.shares
            };
            let value = decimal_product(fill.price, (n as i128, 0u32));
            n > 0 ==> {
                &&& value is Some
                &&& order.side == Side::Buy ==> decimal_difference(before.cash, value->0) is Some
                    && holding_after(before.holding(ticker), fill) is Some
                &&& order.side == Side::Sell ==> decimal_sum(before.cash, value->0) is Some
            }
        },
    ensures
        before.after_order(ticker, bar, order) is Some,
{
    let numbered = PaperView { next_id: (before.next_id + 1) as u64, ..before };
    assert(numbered.holding(ticker) == before.holding(ticker));
}

} // verus!

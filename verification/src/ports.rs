//! The abstractions that the rest of the library is written against.

use crate::date::Civil;
use crate::decimal::Dec;
use crate::market::{BrokerId, MarketSnapshot};
use crate::order::{IntentView, OrderIntent};
use crate::position::{Position, PositionView};
use crate::schedule::Trigger;
use vstd::prelude::*;

verus! {

/// Read-only inputs handed to a [`Strategy`] each trading day.
pub struct DailyContext<'a> {
    pub position: &'a Position,
    pub market: &'a MarketSnapshot,
}

/// The model of a [`MarketSnapshot`].
pub struct MarketView {
    pub ticker: Seq<char>,
    pub price: Dec,
    pub as_of: Civil,
}

impl View for MarketSnapshot {
    type V = MarketView;

    open spec fn view(&self) -> MarketView {
        MarketView { ticker: self.ticker@, price: self.price@, as_of: self.as_of@ }
    }
}

/// The models of a list of orders.
pub open spec fn intents_of(orders: Seq<OrderIntent>) -> Seq<IntentView> {
    Seq::new(orders.len(), |i: int| orders[i]@)
}

/// A trading strategy: a deterministic function from state and market to order intents. This
/// is the system's primary extension point.
pub trait Strategy {
    /// The orders that the strategy decides on, `None` where an amount leaves the range.
    spec fn decision(&self, position: PositionView, market: MarketView) -> Option<Seq<IntentView>>;

    /// The stable identifier of the strategy.
    spec fn identity(&self) -> Seq<char>;

    /// When the strategy wants to be called.
    spec fn wakeups(&self) -> Seq<Trigger>;

    /// Stable identifier, such as `infinite-buying`.
    fn name(&self) -> (r: &str)
        ensures
            r@ == self.identity(),
    ;

    /// Decide today's orders.
    fn decide(&self, ctx: &DailyContext<'_>) -> (r: Vec<OrderIntent>)
        requires
            self.decision(ctx.position@, ctx.market@) is Some,
        ensures
            self.decision(ctx.position@, ctx.market@) == Some(intents_of(r@)),
    ;

    /// Decide today's orders; `None` where an amount leaves the range.
    fn try_decide(&self, ctx: &DailyContext<'_>) -> (r: Option<Vec<OrderIntent>>)
        ensures
            match r {
                Some(orders) => self.decision(ctx.position@, ctx.market@) == Some(
                    intents_of(orders@),
                ),
                None => self.decision(ctx.position@, ctx.market@) is None,
            },
    ;

    /// When the engine should call the strategy.
    fn triggers(&self) -> (r: Vec<Trigger>)
        ensures
            r@ == self.wakeups(),
            forall|i: int|
                0 <= i < r@.len() ==> match #[trigger] r@[i] {
                    Trigger::Schedule(s) => s.at_eastern.wf(),
                },
    ;
}

/// Optional capabilities a broker adapter may support.
#[derive(Clone, Copy, Debug, PartialEq, Eq, Structural)]
pub struct Capabilities {
    pub realtime_quotes: bool,
    pub paper_account: bool,
    pub order_placement: bool,
    pub overseas: bool,
}

impl Default for Capabilities {
    fn default() -> (r: Capabilities)
        ensures
            r == (Capabilities {
                realtime_quotes: false,
                paper_account: false,
                order_placement: false,
                overseas: false,
            }),
    {
        Capabilities {
            realtime_quotes: false,
            paper_account: false,
            order_placement: false,
            overseas: false,
        }
    }
}

/// Identity and capability introspection shared by every broker adapter.
pub trait BrokerInfo {
    /// Which broker it is.
    spec fn broker(&self) -> BrokerId;

    /// What it can do.
    spec fn abilities(&self) -> Capabilities;

    fn id(&self) -> (r: BrokerId)
        ensures
            r == self.broker(),
    ;

    fn capabilities(&self) -> (r: Capabilities)
        ensures
            r == self.abilities(),
    ;
}

} // verus!

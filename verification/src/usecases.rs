//! The operations that a command line or a dashboard calls: an account snapshot, a dry run, a
//! reconcile, and a tick that decides on today's orders and places them.
//!
//! What talks to a broker, a ledger or a journal stays outside; here is what is done with
//! their answers.

use crate::date::{day_number, is_date, Civil, Date, FIRST_DAY};
use crate::decimal::{Dec, Decimal};
use crate::error::{failure_text, DomainError, Failure};
use crate::market::{AccountId, BrokerId, MarketSnapshot, OrderId, Quote, Ticker};
use crate::money::{Money, Price};
use crate::order::{order_key, IntentView, OrderIntent, OrderKind};
use crate::ports::{intents_of, Capabilities, DailyContext, MarketView, Strategy};
use crate::position::{
    day_of, fills_of, reconciled, tranches, Fill, Holding, Position, PositionView,
    Reconciled,
};
use crate::risk::{try_vet, verdict};
use crate::text::{join2, join3};
use vstd::prelude::*;

verus! {

/// A read-only account snapshot.
#[derive(Debug)]
pub struct AccountView {
    pub broker: BrokerId,
    pub capabilities: Capabilities,
    pub holdings: Vec<Holding>,
    /// `None` when the broker exposes no clean balance figure.
    pub balance: Option<Money>,
}

/// The balance that a snapshot shows: what was read, if it was.
pub open spec fn shown_balance(balance: Result<Money, DomainError>) -> Option<Money> {
    match balance {
        Ok(m) => Some(m),
        Err(_) => None,
    }
}

/// Put an account snapshot together. Without holdings there is none; a balance that failed is
/// left out.
pub fn account_snapshot(
    broker: BrokerId,
    capabilities: Capabilities,
    holdings: Result<Vec<Holding>, DomainError>,
    balance: Result<Money, DomainError>,
) -> (r: Result<AccountView, DomainError>)
    ensures
        match r {
            Ok(view) => view.broker == broker && view.capabilities == capabilities && holdings
                == Ok::<Vec<Holding>, DomainError>(view.holdings) && view.balance == match balance {
                Ok(m) => Some(m),
                Err(_) => None,
            },
            Err(e) => holdings == Err::<Vec<Holding>, DomainError>(e),
        },
        r matches Ok(view) ==> view.balance == shown_balance(balance),
        r is Ok <==> holdings is Ok,
{
    match holdings {
        Ok(holdings) => Ok(
            AccountView {
                broker,
                capabilities,
                holdings,
                balance: match balance {
                    Ok(m) => Some(m),
                    Err(_) => None,
                },
            },
        ),
        Err(e) => Err(e),
    }
}

/// The market that a quote shows for a ticker.
pub open spec fn market_of(ticker: Seq<char>, price: Dec, as_of: Civil) -> MarketView {
    MarketView { ticker, price, as_of }
}

/// What a position would order today.
#[derive(Debug)]
pub struct DryRunView {
    pub ticker: Ticker,
    pub price: Price,
    pub t: Decimal,
    pub avg_price: Option<Price>,
    pub intents: Vec<OrderIntent>,
}

/// Run a strategy on a position and a quote of its ticker. `None` where an amount leaves the
/// range.
pub fn decide_on<S: Strategy>(strategy: &S, state: &Position, quote: &Quote) -> (r: Option<
    Vec<OrderIntent>,
>)
    ensures
        match r {
            Some(orders) => strategy.decision(
                state@,
                market_of(state@.ticker, quote.price@, quote.as_of@),
            ) == Some(intents_of(orders@)),
            None => strategy.decision(
                state@,
                market_of(state@.ticker, quote.price@, quote.as_of@),
            ) is None,
        },
{
    let market = MarketSnapshot {
        ticker: state.ticker.clone(),
        price: quote.price,
        as_of: quote.as_of,
    };
    strategy.try_decide(&DailyContext { position: state, market: &market })
}

/// The ledger that a position goes by: the saved one, or the template where none is saved.
pub open spec fn ledger_of(saved: Option<Position>, template: Position) -> Position {
    match saved {
        Some(p) => p,
        None => template,
    }
}

/// The saved state of a position, or the template where none is saved.
pub fn effective_state(saved: Option<Position>, template: Position) -> (r: Position)
    ensures
        r == match saved {
            Some(p) => p,
            None => template,
        },
        r == ledger_of(saved, template),
{
    match saved {
        Some(p) => p,
        None => template,
    }
}

/// Compute today's orders for a position from a quote; none is placed. `None` where an amount
/// leaves the range.
pub fn dry_run<S: Strategy>(strategy: &S, state: &Position, quote: &Quote) -> (r: Option<
    DryRunView,
>)
    ensures
        match r {
            Some(view) => {
                &&& view.ticker@ == state@.ticker
                &&& view.price@ == quote.price@
                &&& tranches(state@.seed, state@.splits, state@.cum_spent) == Some(view.t@)
                &&& view.avg_price == state.avg_price
                &&& strategy.decision(
                    state@,
                    market_of(state@.ticker, quote.price@, quote.as_of@),
                ) == Some(intents_of(view.intents@))
            },
            None => strategy.decision(
                state@,
                market_of(state@.ticker, quote.price@, quote.as_of@),
            ) is None || tranches(state@.seed, state@.splits, state@.cum_spent) is None,
        },
{
    let intents = match decide_on(strategy, state, quote) {
        Some(intents) => intents,
        None => return None,
    };
    match state.try_t() {
        Some(t) => Some(
            DryRunView {
                ticker: state.ticker.clone(),
                price: quote.price,
                t,
                avg_price: state.avg_price,
                intents,
            },
        ),
        None => None,
    }
}

/// How far back to scan for fills on a position's first reconcile. Brokers keep about three
/// months of execution history.
pub const RECONCILE_LOOKBACK_DAYS: u16 = 90;

/// The first day to scan for fills before there is a mark.
pub fn earliest_reconcile_window(today: Date) -> (r: Date)
    ensures
        is_date(today@),
        is_date(r@),
        day_number(r@) == if day_number(today@) - RECONCILE_LOOKBACK_DAYS < FIRST_DAY {
            FIRST_DAY as int
        } else {
            day_number(today@) - RECONCILE_LOOKBACK_DAYS
        },
        day_number(today@) >= FIRST_DAY + 90 ==> day_number(r@) == day_number(today@) - 90,
{
    today.days_before(RECONCILE_LOOKBACK_DAYS)
}

/// The first day to scan for fills: the mark of the ledger, or else the lookback.
pub fn scan_start(state: &Position, today: Date) -> (r: Date)
    ensures
        match state.reconciled_through {
            Some(mark) => r == mark,
            None => day_number(r@) == if day_number(today@) - RECONCILE_LOOKBACK_DAYS < FIRST_DAY {
                FIRST_DAY as int
            } else {
                day_number(today@) - RECONCILE_LOOKBACK_DAYS
            },
        },
        state.reconciled_through is None && day_number(today@) >= FIRST_DAY + 90 ==> day_number(r@)
            == day_number(today@) - 90,
{
    match state.reconciled_through {
        Some(mark) => mark,
        None => earliest_reconcile_window(today),
    }
}

/// What a reconcile did to a position's ledger.
#[derive(Debug)]
pub struct ReconcileView {
    pub ticker: Ticker,
    pub applied_fills: usize,
    pub cycles_completed: u32,
    pub t_before: Decimal,
    pub t_after: Decimal,
    pub through: Option<Date>,
    /// Set only when the broker cannot report fills: the ledger was left unchanged.
    pub note: Option<String>,
}

/// The tranche counter of a ledger.
pub open spec fn counter(p: PositionView) -> Option<Dec> {
    tranches(p.seed, p.splits, p.cum_spent)
}

/// Whether an outcome is a reconcile of a ledger with what a broker answered: the ledger
/// afterwards, what was done, and whether there is anything to save.
pub open spec fn is_reconcile(
    r: Option<Result<(Position, ReconcileView, bool), DomainError>>,
    state: PositionView,
    fills: Result<Vec<Fill>, DomainError>,
    today: Civil,
) -> bool {
    match fills {
        Ok(fills) => {
            let due = reconciled(state, fills_of(fills@), state.reconciled_through, today);
            match r {
                Some(Ok((after, view, save))) => {
                    &&& due == Some(
                        Reconciled {
                            position: after@,
                            applied: view.applied_fills as nat,
                            cycles: view.cycles_completed as nat,
                        },
                    )
                    &&& view.ticker@ == state.ticker
                    &&& counter(state) == Some(view.t_before@)
                    &&& counter(after@) == Some(view.t_after@)
                    &&& day_of(view.through) == after@.reconciled_through
                    &&& view.note is None
                    &&& save == (view.applied_fills > 0)
                },
                Some(Err(_)) => false,
                None => counter(state) is None || due is None || counter(due->0.position) is None,
            }
        },
        Err(DomainError::Unsupported(msg)) => match r {
            Some(Ok((after, view, save))) => {
                &&& after@ == state
                &&& view.ticker@ == state.ticker
                &&& view.applied_fills == 0
                &&& view.cycles_completed == 0
                &&& counter(state) == Some(view.t_before@)
                &&& view.t_after@ == view.t_before@
                &&& day_of(view.through) == state.reconciled_through
                &&& view.note matches Some(note) && note@ == "fills not reconciled: "@ + msg@
                &&& !save
            },
            Some(Err(_)) => false,
            None => counter(state) is None,
        },
        Err(e) => match r {
            Some(Err(f)) => f == e && counter(state) is Some,
            Some(Ok(_)) => false,
            None => counter(state) is None,
        },
    }
}

/// Fold what a broker reports as fills into a ledger. A broker without execution history
/// leaves it as it is, with a note: a tick should still place today's orders. `None` where an
/// amount leaves the range.
pub fn reconcile_into(
    state: Position,
    fills: Result<Vec<Fill>, DomainError>,
    today: Date,
) -> (r: Option<Result<(Position, ReconcileView, bool), DomainError>>)
    ensures
        is_reconcile(r, state@, fills, today@),
{
    let t_before = match state.try_t() {
        Some(t) => t,
        None => return None,
    };
    let ticker = state.ticker.clone();
    match fills {
        Ok(fills) => {
            let mut state = state;
            let outcome = match state.try_reconcile(&fills, today) {
                Some(outcome) => outcome,
                None => return None,
            };
            let t_after = match state.try_t() {
                Some(t) => t,
                None => return None,
            };
            let view = ReconcileView {
                ticker,
                applied_fills: outcome.applied,
                cycles_completed: outcome.cycles_completed,
                t_before,
                t_after,
                through: outcome.through,
                note: None,
            };
            Some(Ok((state, view, outcome.applied > 0)))
        },
        Err(DomainError::Unsupported(msg)) => {
            let view = ReconcileView {
                ticker,
                applied_fills: 0,
                cycles_completed: 0,
                t_before,
                t_after: t_before,
                through: state.reconciled_through,
                note: Some(join2("fills not reconciled: ", msg.as_str())),
            };
            Some(Ok((state, view, false)))
        },
        Err(e) => Some(Err(e)),
    }
}

/// The outcome of one order within a tick.
#[derive(Clone, Copy, Debug, PartialEq, Eq, Structural)]
pub enum TickStatus {
    /// Sent to the broker and accepted.
    Placed,
    /// Already reserved or placed earlier today: skipped.
    SkippedIdempotent,
    /// Preview only.
    WouldPlace,
    /// Reserved, but the broker rejected it.
    Failed,
}

/// One order of a tick and what became of it.
#[derive(Debug)]
pub struct TickOrder {
    pub intent: OrderIntent,
    pub status: TickStatus,
    pub order_id: Option<String>,
    pub error: Option<String>,
}

/// The model of a [`TickOrder`].
pub struct TickOrderView {
    pub intent: IntentView,
    pub status: TickStatus,
    pub order_id: Option<Seq<char>>,
    pub error: Option<Seq<char>>,
}

/// The characters of an optional text.
pub open spec fn text_of(s: Option<String>) -> Option<Seq<char>> {
    match s {
        Some(s) => Some(s@),
        None => None,
    }
}

impl View for TickOrder {
    type V = TickOrderView;

    open spec fn view(&self) -> TickOrderView {
        TickOrderView {
            intent: self.intent@,
            status: self.status,
            order_id: text_of(self.order_id),
            error: text_of(self.error),
        }
    }
}

/// The models of a list of orders.
pub open spec fn orders_of(orders: Seq<TickOrder>) -> Seq<TickOrderView> {
    Seq::new(orders.len(), |i: int| orders[i]@)
}

/// What a tick did (or, in a preview, would do) for a position.
#[derive(Debug)]
pub struct TickView {
    pub ticker: Ticker,
    pub price: Price,
    pub t: Decimal,
    pub executed: bool,
    /// Fills folded into the ledger before deciding.
    pub reconciled_fills: usize,
    pub orders: Vec<TickOrder>,
    pub note: Option<String>,
}

/// Whether placing orders needs a consent that was not given: on a real account, an explicit
/// one.
pub open spec fn lacks_consent(execute: bool, allow_real: bool, paper_account: bool) -> bool {
    execute && !allow_real && !paper_account
}

/// The refusal of orders for a real account without consent.
pub open spec fn no_consent() -> Failure {
    Failure::Risk(
        "refusing to place orders against a real (non-paper) account without explicit real-account consent"@,
    )
}

/// The permission to run a tick. The consent gate alone hands them out, so that whatever holds
/// one has passed it.
#[derive(Debug)]
pub struct Permit {
    execute: bool,
    allow_real: bool,
    paper_account: bool,
}

/// The model of a [`Permit`]: whether orders are to be placed, whether a real account was
/// consented to, and whether the account is a paper one.
pub struct PermitView {
    pub execute: bool,
    pub allow_real: bool,
    pub paper_account: bool,
}

impl PermitView {
    /// Whether no consent is lacking.
    pub open spec fn is_granted(self) -> bool {
        !lacks_consent(self.execute, self.allow_real, self.paper_account)
    }
}

impl View for Permit {
    type V = PermitView;

    closed spec fn view(&self) -> PermitView {
        PermitView {
            execute: self.execute,
            allow_real: self.allow_real,
            paper_account: self.paper_account,
        }
    }
}

impl Permit {
    #[verifier::type_invariant]
    spec fn inv(self) -> bool {
        self@.is_granted()
    }

    /// Whether orders are to be placed.
    pub fn executes(&self) -> (r: bool)
        ensures
            r == self@.execute,
            self@.is_granted(),
    {
        proof {
            use_type_invariant(self);
        }
        self.execute
    }
}

/// Refuse to trade a real account without explicit consent. This comes first, before anything
/// is read or sent, so that every caller inherits it.
pub fn require_consent(execute: bool, allow_real: bool, capabilities: Capabilities) -> (r: Result<
    Permit,
    DomainError,
>)
    ensures
        match r {
            Ok(permit) => permit@.is_granted() && permit@ == (PermitView {
                execute,
                allow_real,
                paper_account: capabilities.paper_account,
            }),
            Err(e) => lacks_consent(execute, allow_real, capabilities.paper_account) && e@
                == no_consent(),
        },
{
    if execute && !allow_real && !capabilities.paper_account {
        return Err(
            DomainError::Risk(
                "refusing to place orders against a real (non-paper) account without explicit real-account consent".to_owned(),
            ),
        );
    }
    Ok(Permit { execute, allow_real, paper_account: capabilities.paper_account })
}

/// The orders that are not no-ops, in order.
pub open spec fn real_orders(intents: Seq<IntentView>) -> Seq<IntentView>
    decreases intents.len(),
{
    if intents.len() == 0 {
        Seq::empty()
    } else {
        let front = real_orders(intents.drop_last());
        if intents.last().shares == 0 {
            front
        } else {
            front.push(intents.last())
        }
    }
}

/// Drop the orders that are no-ops.
pub fn drop_noops(intents: Vec<OrderIntent>) -> (r: Vec<OrderIntent>)
    ensures
        intents_of(r@) == real_orders(intents_of(intents@)),
{
    let ghost all = intents_of(intents@);
    let mut r: Vec<OrderIntent> = Vec::new();
    let mut i: usize = 0;
    assert(all.take(0) =~= Seq::<IntentView>::empty());
    assert(intents_of(r@) =~= Seq::<IntentView>::empty());
    while i < intents.len()
        invariant
            i <= intents.len(),
            all == intents_of(intents@),
            intents_of(r@) == real_orders(all.take(i as int)),
        decreases intents.len() - i,
    {
        proof {
            assert(all.take(i + 1).drop_last() =~= all.take(i as int));
            assert(all.take(i + 1).last() == intents[i as int]@);
        }
        let intent = intents[i];
        if !intent.is_noop() {
            let ghost front = intents_of(r@);
            r.push(intent);
            assert(intents_of(r@) =~= front.push(intent@));
        }
        i += 1;
    }
    assert(all.take(i as int) =~= all);
    r
}

/// What the risk check says of a list of orders: the first complaint where there is one, and
/// `None` where an amount leaves the range before that.
pub open spec fn verdict_of_all(
    intents: Seq<IntentView>,
    p: PositionView,
    reference: Dec,
) -> Option<Result<(), Seq<char>>>
    decreases intents.len(),
{
    if intents.len() == 0 {
        Some(Ok(()))
    } else {
        match verdict_of_all(intents.drop_last(), p, reference) {
            Some(Ok(())) => verdict(intents.last(), p, reference),
            other => other,
        }
    }
}

/// Vet every order before any is placed: one violation aborts the whole tick, so no part of a
/// strategy reaches the market. `None` where an amount leaves the range.
pub fn vet_all(intents: &[OrderIntent], position: &Position, reference: Price) -> (r: Option<
    Result<(), DomainError>,
>)
    ensures
        match r {
            Some(Ok(())) => verdict_of_all(intents_of(intents@), position@, reference@) == Some(
                Ok::<(), Seq<char>>(()),
            ),
            Some(Err(e)) => e@ matches Failure::Risk(text) && verdict_of_all(
                intents_of(intents@),
                position@,
                reference@,
            ) == Some(Err::<(), Seq<char>>(text)),
            None => verdict_of_all(intents_of(intents@), position@, reference@) is None,
        },
{
    let ghost all = intents_of(intents@);
    let mut i: usize = 0;
    assert(all.take(0) =~= Seq::<IntentView>::empty());
    while i < intents.len()
        invariant
            i <= intents.len(),
            all == intents_of(intents@),
            verdict_of_all(all.take(i as int), position@, reference@) == Some(
                Ok::<(), Seq<char>>(()),
            ),
        decreases intents.len() - i,
    {
        proof {
            assert(all.take(i + 1).drop_last() =~= all.take(i as int));
            assert(all.take(i + 1).last() == intents[i as int]@);
        }
        match try_vet(&intents[i], position, reference) {
            Some(Ok(())) => {},
            other => {
                proof {
                    lemma_first_verdict(all, position@, reference@, i + 1);
                }
                return other;
            },
        }
        i += 1;
    }
    assert(all.take(i as int) =~= all);
    Some(Ok(()))
}

proof fn lemma_first_verdict(intents: Seq<IntentView>, p: PositionView, reference: Dec, n: int)
    requires
        0 <= n <= intents.len(),
        verdict_of_all(intents.take(n), p, reference) != Some(Ok::<(), Seq<char>>(())),
    ensures
        verdict_of_all(intents, p, reference) == verdict_of_all(intents.take(n), p, reference),
    decreases intents.len() - n,
{
    if n == intents.len() {
        assert(intents.take(n) =~= intents);
    } else {
        assert(intents.take(n + 1).drop_last() =~= intents.take(n));
        lemma_first_verdict(intents, p, reference, n + 1);
    }
}

/// A tick goes on only if every one of its orders passes the risk check.
pub proof fn law_no_partial_strategy(intents: Seq<IntentView>, p: PositionView, reference: Dec)
    requires
        verdict_of_all(intents, p, reference) == Some(Ok::<(), Seq<char>>(())),
    ensures
        forall|i: int|
            0 <= i < intents.len() ==> verdict(#[trigger] intents[i], p, reference) == Some(
                Ok::<(), Seq<char>>(()),
            ),
    decreases intents.len(),
{
    if intents.len() > 0 {
        let front = intents.drop_last();
        law_no_partial_strategy(front, p, reference);
        assert forall|i: int| 0 <= i < intents.len() implies verdict(
            #[trigger] intents[i],
            p,
            reference,
        ) == Some(Ok::<(), Seq<char>>(())) by {
            if i < front.len() {
                assert(front[i] == intents[i]);
            }
        }
    }
}

/// Whether an order of a list is limit-on-close.
pub open spec fn has_loc(intents: Seq<IntentView>) -> bool {
    exists|i: int| 0 <= i < intents.len() && (#[trigger] intents[i]).kind == OrderKind::LimitOnClose
}

/// Whether an order of a list is limit-on-close.
fn any_loc(intents: &[OrderIntent]) -> (r: bool)
    ensures
        r == has_loc(intents_of(intents@)),
{
    let ghost all = intents_of(intents@);
    let mut i: usize = 0;
    while i < intents.len()
        invariant
            i <= intents.len(),
            all == intents_of(intents@),
            forall|j: int| 0 <= j < i ==> (#[trigger] all[j]).kind != OrderKind::LimitOnClose,
        decreases intents.len() - i,
    {
        assert(all[i as int] == intents[i as int]@);
        if intents[i].kind == OrderKind::LimitOnClose {
            return true;
        }
        i += 1;
    }
    false
}

/// The note that a paper account sends limit-on-close orders as day limits.
pub open spec fn loc_note() -> Seq<char> {
    "KIS 모의(paper) has no true LOC: LOC legs are sent as plain day-limits at the leg's limit price, so they may fill intraday, not at the close"@
}

/// The notes of a tick in one line.
pub open spec fn notes_of(
    reconcile_note: Option<Seq<char>>,
    paper_account: bool,
    intents: Seq<IntentView>,
) -> Option<Seq<char>> {
    let degrades = paper_account && has_loc(intents);
    match reconcile_note {
        Some(n) => if degrades {
            Some(n + " | "@ + loc_note())
        } else {
            Some(n)
        },
        None => if degrades {
            Some(loc_note())
        } else {
            None
        },
    }
}

/// The notes of a tick in one line: what the reconcile says, and that a paper account sends
/// limit-on-close orders as day limits.
pub fn tick_note(
    reconcile_note: Option<String>,
    paper_account: bool,
    intents: &[OrderIntent],
) -> (r: Option<String>)
    ensures
        text_of(r) == notes_of(text_of(reconcile_note), paper_account, intents_of(intents@)),
{
    let loc = "KIS 모의(paper) has no true LOC: LOC legs are sent as plain day-limits at the leg's limit price, so they may fill intraday, not at the close";
    let degrades = paper_account && any_loc(intents);
    match reconcile_note {
        Some(n) => if degrades {
            Some(join3(n.as_str(), " | ", loc))
        } else {
            Some(n)
        },
        None => if degrades {
            Some(loc.to_owned())
        } else {
            None
        },
    }
}

/// Where a tick is with its current order.
#[derive(Debug)]
pub enum TickPhase {
    /// Its key is to be reserved.
    Reserving,
    /// Its key is reserved, and it is to be sent.
    Placing,
    /// It was accepted, and its identifier is to be recorded.
    Recording(OrderId),
}

/// The model of a [`TickPhase`].
pub enum PhaseView {
    Reserving,
    Placing,
    Recording(Seq<char>),
}

impl View for TickPhase {
    type V = PhaseView;

    open spec fn view(&self) -> PhaseView {
        match self {
            TickPhase::Reserving => PhaseView::Reserving,
            TickPhase::Placing => PhaseView::Placing,
            TickPhase::Recording(id) => PhaseView::Recording(id@),
        }
    }
}

/// What a tick wants done next.
#[derive(Debug)]
pub enum TickAction {
    /// Reserve a key in the journal.
    Reserve(String),
    /// Send an order to the broker.
    Place(OrderIntent),
    /// Record an identifier under a key in the journal.
    Record(String, OrderId),
    /// Nothing more.
    Finish,
}

/// The model of a [`TickAction`].
pub enum ActionView {
    Reserve(Seq<char>),
    Place(IntentView),
    Record(Seq<char>, Seq<char>),
    Finish,
}

impl View for TickAction {
    type V = ActionView;

    open spec fn view(&self) -> ActionView {
        match self {
            TickAction::Reserve(key) => ActionView::Reserve(key@),
            TickAction::Place(intent) => ActionView::Place(intent@),
            TickAction::Record(key, id) => ActionView::Record(key@, id@),
            TickAction::Finish => ActionView::Finish,
        }
    }
}

/// What came of an action.
#[derive(Debug)]
pub enum TickEvent {
    /// Whether the key was newly reserved.
    Reserved(Result<bool, DomainError>),
    /// The broker's identifier for the order.
    Placed(Result<OrderId, DomainError>),
    /// Whether the identifier was recorded.
    Recorded(Result<(), DomainError>),
}

/// The model of a [`TickEvent`].
pub enum EventView {
    Reserved(Result<bool, Failure>),
    Placed(Result<Seq<char>, Failure>),
    Recorded(Result<(), Failure>),
}

impl View for TickEvent {
    type V = EventView;

    open spec fn view(&self) -> EventView {
        match self {
            TickEvent::Reserved(Ok(b)) => EventView::Reserved(Ok(*b)),
            TickEvent::Reserved(Err(e)) => EventView::Reserved(Err(e@)),
            TickEvent::Placed(Ok(id)) => EventView::Placed(Ok(id@)),
            TickEvent::Placed(Err(e)) => EventView::Placed(Err(e@)),
            TickEvent::Recorded(Ok(())) => EventView::Recorded(Ok(())),
            TickEvent::Recorded(Err(e)) => EventView::Recorded(Err(e@)),
        }
    }
}

/// The orders of a tick on their way to the broker. Placement is at most once: each order is
/// reserved in the journal before it is sent, so a crash or a rerun on the same day never
/// places it twice. The permit of the tick goes with them.
#[derive(Debug)]
pub struct TickRun {
    permit: Permit,
    account: AccountId,
    ticker: Ticker,
    today: Date,
    intents: Vec<OrderIntent>,
    phase: TickPhase,
    done: Vec<TickOrder>,
    price: Price,
    t: Decimal,
    reconciled_fills: usize,
    note: Option<String>,
}

/// The model of a [`TickRun`].
pub struct RunView {
    pub permit: PermitView,
    pub account: Seq<char>,
    pub ticker: Seq<char>,
    pub today: Civil,
    pub intents: Seq<IntentView>,
    pub phase: PhaseView,
    pub done: Seq<TickOrderView>,
    pub price: Dec,
    pub t: Dec,
    pub reconciled_fills: nat,
    pub note: Option<Seq<char>>,
}

impl View for TickRun {
    type V = RunView;

    closed spec fn view(&self) -> RunView {
        RunView {
            permit: self.permit@,
            account: self.account@,
            ticker: self.ticker@,
            today: self.today@,
            intents: intents_of(self.intents@),
            phase: self.phase@,
            done: orders_of(self.done@),
            price: self.price@,
            t: self.t@,
            reconciled_fills: self.reconciled_fills as nat,
            note: text_of(self.note),
        }
    }
}

/// Whether a tick has the consent that it takes, and has nothing to do if it is a preview.
pub open spec fn is_permitted(run: RunView) -> bool {
    run.permit.is_granted() && (!run.permit.execute ==> run.is_finished())
}

impl RunView {
    /// The key of the current order.
    pub open spec fn key(self) -> Seq<char> {
        order_key(
            self.account,
            self.ticker,
            self.today,
            self.intents[self.done.len() as int].tag,
        )
    }

    /// Whether every order is dealt with.
    pub open spec fn is_finished(self) -> bool {
        self.done.len() >= self.intents.len()
    }

    /// What is to be done next.
    pub open spec fn action(self) -> ActionView {
        if self.is_finished() {
            ActionView::Finish
        } else {
            match self.phase {
                PhaseView::Reserving => ActionView::Reserve(self.key()),
                PhaseView::Placing => ActionView::Place(self.intents[self.done.len() as int]),
                PhaseView::Recording(id) => ActionView::Record(self.key(), id),
            }
        }
    }

    /// The run with its current order dealt with.
    pub open spec fn with_done(
        self,
        status: TickStatus,
        order_id: Option<Seq<char>>,
        error: Option<Seq<char>>,
    ) -> RunView {
        RunView {
            phase: PhaseView::Reserving,
            done: self.done.push(
                TickOrderView {
                    intent: self.intents[self.done.len() as int],
                    status,
                    order_id,
                    error,
                },
            ),
            ..self
        }
    }

    /// Whether an event answers the current action.
    pub open spec fn expects(self, event: EventView) -> bool {
        &&& !self.is_finished()
        &&& match self.phase {
            PhaseView::Reserving => event is Reserved,
            PhaseView::Placing => event is Placed,
            PhaseView::Recording(_) => event is Recorded,
        }
    }

    /// The run after an event. A journal that fails before an order is sent aborts the tick;
    /// one that fails after it only leaves a remark, since the order is live.
    pub open spec fn after(self, event: EventView) -> Result<RunView, Failure> {
        match event {
            EventView::Reserved(Ok(true)) => Ok(RunView { phase: PhaseView::Placing, ..self }),
            EventView::Reserved(Ok(false)) => Ok(
                self.with_done(TickStatus::SkippedIdempotent, None, None),
            ),
            EventView::Reserved(Err(e)) => Err(e),
            EventView::Placed(Ok(id)) => Ok(RunView { phase: PhaseView::Recording(id), ..self }),
            EventView::Placed(Err(e)) => Ok(
                self.with_done(TickStatus::Failed, None, Some(failure_text(e))),
            ),
            EventView::Recorded(Ok(())) => Ok(
                self.with_done(TickStatus::Placed, Some(self.phase->Recording_0), None),
            ),
            EventView::Recorded(Err(e)) => Ok(
                self.with_done(
                    TickStatus::Placed,
                    Some(self.phase->Recording_0),
                    Some("order is live but journal record failed: "@ + failure_text(e)),
                ),
            ),
        }
    }
}

/// The orders of a preview.
pub open spec fn previewed(intents: Seq<IntentView>) -> Seq<TickOrderView> {
    Seq::new(
        intents.len(),
        |i: int|
            TickOrderView {
                intent: intents[i],
                status: TickStatus::WouldPlace,
                order_id: None,
                error: None,
            },
    )
}

/// Whether an outcome is the start of a tick on a ledger and a quote: `None` where an amount
/// leaves the range, the first complaint of the risk check, or the orders to be placed. A
/// preview has them dealt with already.
pub open spec fn is_tick_start<S: Strategy>(
    r: Option<Result<TickRun, DomainError>>,
    strategy: S,
    state: PositionView,
    quote_price: Dec,
    quote_day: Civil,
    permit: PermitView,
    reconciled_fills: nat,
    reconcile_note: Option<Seq<char>>,
    today: Civil,
) -> bool {
    let decision = strategy.decision(state, market_of(state.ticker, quote_price, quote_day));
    let orders = real_orders(decision->0);
    let checked = verdict_of_all(orders, state, quote_price);
    match r {
        None => decision is None || checked is None || (checked == Some(Ok::<(), Seq<char>>(()))
            && counter(state) is None),
        Some(Err(e)) => decision is Some && (e@ matches Failure::Risk(text) && checked == Some(
            Err::<(), Seq<char>>(text),
        )),
        Some(Ok(run)) => {
            &&& decision is Some
            &&& checked == Some(Ok::<(), Seq<char>>(()))
            &&& counter(state) == Some(run@.t)
            &&& run@.account == state.account
            &&& run@.ticker == state.ticker
            &&& run@.today == today
            &&& run@.intents == orders
            &&& run@.phase == PhaseView::Reserving
            &&& run@.permit == permit
            &&& run@.done == if permit.execute {
                Seq::empty()
            } else {
                previewed(orders)
            }
            &&& run@.price == quote_price
            &&& run@.reconciled_fills == reconciled_fills
            &&& run@.note == notes_of(reconcile_note, permit.paper_account, orders)
        },
    }
}

/// Decide on today's orders for a reconciled ledger, vet all of them, and get them ready to
/// be placed. In a preview nothing is to be reserved or sent.
pub fn place_orders<S: Strategy>(
    strategy: &S,
    state: &Position,
    quote: &Quote,
    permit: Permit,
    reconciled_fills: usize,
    reconcile_note: Option<String>,
    today: Date,
) -> (r: Option<Result<TickRun, DomainError>>)
    ensures
        permit@.is_granted(),
        is_tick_start(
            r,
            *strategy,
            state@,
            quote.price@,
            quote.as_of@,
            permit@,
            reconciled_fills as nat,
            text_of(reconcile_note),
            today@,
        ),
        r matches Some(Ok(run)) ==> is_permitted(run@),
{
    proof {
        use_type_invariant(&permit);
    }
    let decided = match decide_on(strategy, state, quote) {
        Some(intents) => intents,
        None => return None,
    };
    let intents = drop_noops(decided);
    match vet_all(&intents, state, quote.price) {
        Some(Ok(())) => {},
        Some(Err(e)) => return Some(Err(e)),
        None => return None,
    }
    let t = match state.try_t() {
        Some(t) => t,
        None => return None,
    };
    let note = tick_note(reconcile_note, permit.paper_account, &intents);
    let done = if permit.execute {
        let none: Vec<TickOrder> = Vec::new();
        assert(orders_of(none@) =~= Seq::<TickOrderView>::empty());
        none
    } else {
        preview(&intents)
    };
    assert(done@.len() == orders_of(done@).len());
    Some(
        Ok(
            TickRun {
                permit,
                account: state.account.clone(),
                ticker: state.ticker.clone(),
                today,
                intents,
                phase: TickPhase::Reserving,
                done,
                price: quote.price,
                t,
                reconciled_fills,
                note,
            },
        ),
    )
}

/// The orders of a preview.
fn preview(intents: &[OrderIntent]) -> (r: Vec<TickOrder>)
    ensures
        orders_of(r@) == previewed(intents_of(intents@)),
{
    let mut orders: Vec<TickOrder> = Vec::new();
    let mut i: usize = 0;
    while i < intents.len()
        invariant
            i <= intents.len(),
            orders@.len() == i,
            forall|j: int|
                0 <= j < i ==> (#[trigger] orders@[j])@ == previewed(intents_of(intents@))[j],
        decreases intents.len() - i,
    {
        orders.push(
            TickOrder {
                intent: intents[i],
                status: TickStatus::WouldPlace,
                order_id: None,
                error: None,
            },
        );
        i += 1;
    }
    assert(orders_of(orders@) =~= previewed(intents_of(intents@)));
    orders
}

impl TickRun {
    #[verifier::type_invariant]
    spec fn inv(self) -> bool {
        is_permitted(self@)
    }

    /// The key of the current order.
    fn key(&self) -> (r: String)
        requires
            !self@.is_finished(),
        ensures
            r@ == self@.key(),
    {
        let i: usize = self.done.len();
        assert(self@.intents[i as int] == self.intents[i as int]@);
        self.intents[i].client_key(&self.account, &self.ticker, self.today)
    }

    /// What is to be done next. There is something only with the consent that it takes.
    pub fn action(&self) -> (r: TickAction)
        ensures
            r@ == self@.action(),
            r@ != ActionView::Finish ==> self@.permit.execute && (self@.permit.allow_real
                || self@.permit.paper_account),
    {
        proof {
            use_type_invariant(self);
        }
        let i: usize = self.done.len();
        if i >= self.intents.len() {
            return TickAction::Finish;
        }
        match &self.phase {
            TickPhase::Reserving => TickAction::Reserve(self.key()),
            TickPhase::Placing => {
                assert(self@.intents[i as int] == self.intents[i as int]@);
                TickAction::Place(self.intents[i])
            },
            TickPhase::Recording(id) => TickAction::Record(self.key(), id.clone()),
        }
    }

    /// Go on after an action was carried out.
    pub fn advance(self, event: TickEvent) -> (r: Result<TickRun, DomainError>)
        requires
            self@.expects(event@),
        ensures
            match r {
                Ok(run) => self@.after(event@) == Ok::<RunView, Failure>(run@),
                Err(e) => self@.after(event@) == Err::<RunView, Failure>(e@),
            },
    {
        match event {
            TickEvent::Reserved(Ok(true)) => Ok(self.in_phase(TickPhase::Placing)),
            TickEvent::Reserved(Ok(false)) => Ok(
                self.finish_order(TickStatus::SkippedIdempotent, None, None),
            ),
            TickEvent::Reserved(Err(e)) => Err(e),
            TickEvent::Placed(Ok(id)) => Ok(self.in_phase(TickPhase::Recording(id))),
            TickEvent::Placed(Err(e)) => {
                let text = e.to_text();
                Ok(self.finish_order(TickStatus::Failed, None, Some(text)))
            },
            TickEvent::Recorded(result) => {
                let id = match &self.phase {
                    TickPhase::Recording(id) => id.as_str().to_owned(),
                    _ => unreached(),
                };
                match result {
                    Ok(()) => Ok(self.finish_order(TickStatus::Placed, Some(id), None)),
                    Err(e) => {
                        let text = e.to_text();
                        let remark = join2(
                            "order is live but journal record failed: ",
                            text.as_str(),
                        );
                        Ok(self.finish_order(TickStatus::Placed, Some(id), Some(remark)))
                    },
                }
            },
        }
    }

    /// Go to another phase of the current order.
    fn in_phase(self, phase: TickPhase) -> (r: TickRun)
        ensures
            r@ == (RunView { phase: phase@, ..self@ }),
    {
        proof {
            use_type_invariant(&self);
        }
        TickRun { phase, ..self }
    }

    /// Note what became of the current order, and go to the next.
    fn finish_order(self, status: TickStatus, order_id: Option<String>, error: Option<String>) -> (r:
        TickRun)
        requires
            !self@.is_finished(),
        ensures
            r@ == self@.with_done(status, text_of(order_id), text_of(error)),
    {
        proof {
            use_type_invariant(&self);
        }
        let ghost start = self@;
        let i: usize = self.done.len();
        let intent = self.intents[i];
        assert(start.intents[i as int] == intent@);
        let order = TickOrder { intent, status, order_id, error };
        let ghost new = order@;
        let mut done = self.done;
        done.push(order);
        assert(orders_of(done@) =~= start.done.push(new));
        TickRun { phase: TickPhase::Reserving, done, ..self }
    }

    /// What the tick did.
    pub fn into_view(self) -> (r: TickView)
        ensures
            r.ticker@ == self@.ticker,
            orders_of(r.orders@) == self@.done,
            r.price@ == self@.price,
            r.t@ == self@.t,
            r.executed == self@.permit.execute,
            r.reconciled_fills == self@.reconciled_fills,
            text_of(r.note) == self@.note,
    {
        TickView {
            ticker: self.ticker,
            price: self.price,
            t: self.t,
            executed: self.permit.execute,
            reconciled_fills: self.reconciled_fills,
            orders: self.done,
            note: self.note,
        }
    }
}

/// Whatever happens to a tick, it keeps the consent that it began with, and asks for nothing to
/// be reserved, sent or recorded without it.
pub proof fn law_nothing_is_sent_without_consent(run: RunView, event: EventView, next: RunView)
    requires
        is_permitted(run),
        run.expects(event),
        run.after(event) == Ok::<RunView, Failure>(next),
    ensures
        is_permitted(next),
        next.permit == run.permit,
        next.action() != ActionView::Finish ==> next.permit.execute && (next.permit.allow_real
            || next.permit.paper_account),
{
}

/// An order is sent only after its key was newly reserved: no other event leads to sending.
pub proof fn law_reserved_before_placed(run: RunView, event: EventView, next: RunView)
    requires
        run.expects(event),
        run.after(event) == Ok::<RunView, Failure>(next),
        next.action() is Place,
    ensures
        run.action() == ActionView::Reserve(run.key()),
        event == EventView::Reserved(Ok(true)),
        next.action() == ActionView::Place(run.intents[run.done.len() as int]),
{
}

/// A key that is taken already has its order skipped and nothing sent.
pub proof fn law_taken_keys_are_skipped(run: RunView)
    requires
        run.expects(EventView::Reserved(Ok(false))),
    ensures
        run.after(EventView::Reserved(Ok(false))) is Ok,
        ({
            let next = run.after(EventView::Reserved(Ok(false)))->Ok_0;
            &&& next.action() !is Place
            &&& next.done.last().status == TickStatus::SkippedIdempotent
            &&& next.done.last().order_id is None
            &&& next.done.len() == run.done.len() + 1
        }),
{
}

/// Every order is dealt with once, in order, and none is changed on the way.
pub proof fn law_orders_are_dealt_with_in_order(run: RunView, event: EventView, next: RunView)
    requires
        run.expects(event),
        run.after(event) == Ok::<RunView, Failure>(next),
    ensures
        next.intents == run.intents,
        next.done == run.done || (next.done.drop_last() == run.done && next.done.last().intent
            == run.intents[run.done.len() as int]),
        next.done.len() <= run.intents.len(),
{
    if next.done != run.done {
        assert(next.done.drop_last() =~= run.done);
    }
}

/// A preview reserves, sends and records nothing.
pub proof fn law_previews_do_nothing(run: RunView)
    requires
        run.done == previewed(run.intents),
    ensures
        run.action() == ActionView::Finish,
        forall|event: EventView| !run.expects(event),
{
}

/// Executing on a real account takes explicit consent; previews and paper accounts take none.
pub proof fn law_consent(execute: bool, allow_real: bool, paper_account: bool)
    ensures
        lacks_consent(execute, allow_real, paper_account) ==> execute,
        !lacks_consent(execute, true, paper_account),
        !lacks_consent(execute, allow_real, true),
        lacks_consent(true, false, false),
{
}

/// A permit is granted exactly for a preview, a paper account, or a real one that was consented
/// to.
pub proof fn law_permits_need_consent_on_real_accounts(permit: PermitView)
    ensures
        permit.is_granted() <==> !permit.execute || permit.paper_account || permit.allow_real,
{
}

/// The orders that are kept are those with shares, each as decided, in order.
pub proof fn law_noops_alone_are_dropped(intents: Seq<IntentView>)
    ensures
        real_orders(intents) == intents.filter(|intent: IntentView| intent.shares > 0),
    decreases intents.len(),
{
    reveal(Seq::filter);
    if intents.len() > 0 {
        law_noops_alone_are_dropped(intents.drop_last());
    }
}

/// Orders pass together where each of them passes; otherwise the verdict on all of them is that
/// on the first that does not.
pub proof fn law_the_first_complaint_stands_for_all(
    intents: Seq<IntentView>,
    p: PositionView,
    reference: Dec,
)
    ensures
        (forall|i: int|
            0 <= i < intents.len() ==> verdict(#[trigger] intents[i], p, reference) == Some(
                Ok::<(), Seq<char>>(()),
            )) ==> verdict_of_all(intents, p, reference) == Some(Ok::<(), Seq<char>>(())),
        forall|i: int|
            0 <= i < intents.len() && verdict(#[trigger] intents[i], p, reference) != Some(
                Ok::<(), Seq<char>>(()),
            ) && (forall|j: int|
                0 <= j < i ==> verdict(#[trigger] intents[j], p, reference) == Some(
                    Ok::<(), Seq<char>>(()),
                )) ==> verdict_of_all(intents, p, reference) == verdict(intents[i], p, reference),
    decreases intents.len(),
{
    let ok = Some(Ok::<(), Seq<char>>(()));
    if intents.len() > 0 {
        let front = intents.drop_last();
        law_the_first_complaint_stands_for_all(front, p, reference);
        assert forall|i: int|
            0 <= i < intents.len() && verdict(#[trigger] intents[i], p, reference) != ok && (forall|
                j: int,
            |
                0 <= j < i ==> verdict(#[trigger] intents[j], p, reference)
                    == ok) implies verdict_of_all(intents, p, reference) == verdict(
            intents[i],
            p,
            reference,
        ) by {
            assert forall|j: int| 0 <= j < i && j < front.len() implies verdict(
                #[trigger] front[j],
                p,
                reference,
            ) == ok by {
                assert(front[j] == intents[j]);
            }
            if i < front.len() {
                assert(front[i] == intents[i]);
            }
        }
        if forall|i: int|
            0 <= i < intents.len() ==> verdict(#[trigger] intents[i], p, reference) == ok {
            assert forall|j: int| 0 <= j < front.len() implies verdict(
                #[trigger] front[j],
                p,
                reference,
            ) == ok by {
                assert(front[j] == intents[j]);
            }
            assert(intents.last() == intents[intents.len() - 1]);
        }
    }
}

/// A tick says what the reconcile says and, on a paper account with a limit-on-close order
/// among its own, that such orders go out as day limits; nothing else, and nothing where there
/// is neither.
pub proof fn law_notes_say_what_happened(
    reconcile_note: Option<Seq<char>>,
    paper_account: bool,
    intents: Seq<IntentView>,
)
    ensures
        ({
            let loc = "KIS 모의(paper) has no true LOC: LOC legs are sent as plain day-limits at the leg's limit price, so they may fill intraday, not at the close"@;
            let degrades = paper_account && exists|i: int|
                0 <= i < intents.len() && (#[trigger] intents[i]).kind == OrderKind::LimitOnClose;
            let note = notes_of(reconcile_note, paper_account, intents);
            &&& reconcile_note is None && !degrades ==> note is None
            &&& reconcile_note is None && degrades ==> note == Some(loc)
            &&& reconcile_note is Some && !degrades ==> note == reconcile_note
            &&& reconcile_note is Some && degrades ==> note == Some(
                reconcile_note->0 + " | "@ + loc,
            )
        }),
{
}

/// A preview lists every order once, in order, as one that would be placed.
pub proof fn law_previews_list_every_order(intents: Seq<IntentView>)
    ensures
        previewed(intents).len() == intents.len(),
        forall|i: int|
            0 <= i < intents.len() ==> (#[trigger] previewed(intents)[i]).intent == intents[i]
                && previewed(intents)[i].status == TickStatus::WouldPlace && previewed(
                intents,
            )[i].order_id is None && previewed(intents)[i].error is None,
{
}

/// What each answer leads to. A newly reserved key has its order sent, and a taken one has it
/// skipped. An accepted order has its identifier recorded under its key, and a refused one
/// failed with the reason. Once recorded it is placed; where the recording fails it is placed
/// all the same, with a remark.
pub proof fn law_answers_lead_on(run: RunView, event: EventView)
    requires
        run.expects(event),
    ensures
        event == EventView::Reserved(Ok(true)) ==> run.after(event) is Ok && run.after(
            event,
        )->Ok_0.action() == ActionView::Place(run.intents[run.done.len() as int]) && run.after(
            event,
        )->Ok_0.done == run.done,
        event matches EventView::Reserved(Err(e)) ==> run.after(event) == Err::<RunView, Failure>(
            e,
        ),
        event matches EventView::Placed(Ok(id)) ==> run.after(event) is Ok && run.after(
            event,
        )->Ok_0.action() == ActionView::Record(
            order_key(
                run.account,
                run.ticker,
                run.today,
                run.intents[run.done.len() as int].tag,
            ),
            id,
        ) && run.after(event)->Ok_0.done == run.done,
        event is Placed || event is Recorded ==> run.after(event) is Ok,
        event matches EventView::Placed(Err(e)) ==> run.after(event)->Ok_0.done.last() == (
        TickOrderView {
            intent: run.intents[run.done.len() as int],
            status: TickStatus::Failed,
            order_id: None,
            error: Some(failure_text(e)),
        }),
        event == EventView::Recorded(Ok(())) ==> run.after(event)->Ok_0.done.last() == (
        TickOrderView {
            intent: run.intents[run.done.len() as int],
            status: TickStatus::Placed,
            order_id: Some(run.phase->Recording_0),
            error: None,
        }),
        event matches EventView::Recorded(Err(e)) ==> run.after(event)->Ok_0.done.last() == (
        TickOrderView {
            intent: run.intents[run.done.len() as int],
            status: TickStatus::Placed,
            order_id: Some(run.phase->Recording_0),
            error: Some("order is live but journal record failed: "@ + failure_text(e)),
        }),
{
}

/// A tick asks in turn to reserve the key of its current order, to send that order, and to
/// record what came back under the same key; with every order dealt with it asks for nothing.
pub proof fn law_a_tick_works_on_its_current_order(run: RunView)
    ensures
        run.done.len() >= run.intents.len() ==> run.action() == ActionView::Finish,
        run.done.len() < run.intents.len() ==> ({
            let intent = run.intents[run.done.len() as int];
            let key = order_key(run.account, run.ticker, run.today, intent.tag);
            &&& run.phase == PhaseView::Reserving ==> run.action() == ActionView::Reserve(key)
            &&& run.phase == PhaseView::Placing ==> run.action() == ActionView::Place(intent)
            &&& run.phase matches PhaseView::Recording(id) ==> run.action() == ActionView::Record(
                key,
                id,
            )
        }),
{
}

/// What is settled at the start of a tick stays to its end.
pub proof fn law_a_tick_keeps_its_terms(run: RunView, event: EventView, next: RunView)
    requires
        run.expects(event),
        run.after(event) == Ok::<RunView, Failure>(next),
    ensures
        next.permit == run.permit,
        next.account == run.account,
        next.ticker == run.ticker,
        next.today == run.today,
        next.intents == run.intents,
        next.price == run.price,
        next.t == run.t,
        next.reconciled_fills == run.reconciled_fills,
        next.note == run.note,
        next.done.len() > run.done.len() ==> next.phase == PhaseView::Reserving,
{
}

/// A tick that starts has the orders of the strategy that have shares, at the quote, for the
/// account, the ticker and the day of the ledger. All of them passed the risk check. When
/// executing, none is dealt with yet and the first is to be reserved; in a preview all are.
pub proof fn law_a_tick_starts_with_the_vetted_orders<S: Strategy>(
    run: TickRun,
    strategy: S,
    state: PositionView,
    quote_price: Dec,
    quote_day: Civil,
    permit: PermitView,
    reconciled_fills: nat,
    reconcile_note: Option<Seq<char>>,
    today: Civil,
)
    requires
        is_tick_start(
            Some(Ok(run)),
            strategy,
            state,
            quote_price,
            quote_day,
            permit,
            reconciled_fills,
            reconcile_note,
            today,
        ),
    ensures
        ({
            let decision = strategy.decision(
                state,
                MarketView { ticker: state.ticker, price: quote_price, as_of: quote_day },
            );
            &&& decision is Some
            &&& run@.intents == decision->0.filter(|intent: IntentView| intent.shares > 0)
            &&& forall|i: int|
                0 <= i < run@.intents.len() ==> verdict(
                    #[trigger] run@.intents[i],
                    state,
                    quote_price,
                ) == Some(Ok::<(), Seq<char>>(()))
            &&& run@.account == state.account
            &&& run@.ticker == state.ticker
            &&& run@.today == today
            &&& run@.price == quote_price
            &&& run@.permit == permit
            &&& run@.reconciled_fills == reconciled_fills
            &&& tranches(state.seed, state.splits, state.cum_spent) == Some(run@.t)
            &&& permit.execute ==> run@.done.len() == 0
            &&& permit.execute && run@.intents.len() > 0 ==> run@.action() == ActionView::Reserve(
                order_key(state.account, state.ticker, today, run@.intents[0].tag),
            )
            &&& !permit.execute ==> run@.done.len() == run@.intents.len()
            &&& !permit.execute ==> run@.action() == ActionView::Finish
            &&& !permit.execute ==> forall|i: int|
                0 <= i < run@.done.len() ==> (#[trigger] run@.done[i]).intent == run@.intents[i]
                    && run@.done[i].status == TickStatus::WouldPlace && run@.done[i].order_id
                    is None && run@.done[i].error is None
        }),
{
    let decision = strategy.decision(state, market_of(state.ticker, quote_price, quote_day));
    law_noops_alone_are_dropped(decision->0);
    law_no_partial_strategy(run@.intents, state, quote_price);
}

/// A reconcile folds the fills in where the broker reports them, counts the tranches before and
/// after, carries the mark, and has something to save exactly where a fill was applied. A broker
/// without a history leaves the ledger alone, saves nothing and says so; any other error is
/// passed on.
pub proof fn law_a_reconcile_saves_what_it_applied(
    r: Option<Result<(Position, ReconcileView, bool), DomainError>>,
    state: PositionView,
    fills: Result<Vec<Fill>, DomainError>,
    today: Civil,
)
    requires
        is_reconcile(r, state, fills, today),
    ensures
        r matches Some(Ok((after, view, save))) ==> {
            &&& save <==> view.applied_fills > 0
            &&& view.ticker@ == state.ticker
            &&& tranches(state.seed, state.splits, state.cum_spent) == Some(view.t_before@)
            &&& tranches(after@.seed, after@.splits, after@.cum_spent) == Some(view.t_after@)
            &&& day_of(view.through) == after@.reconciled_through
            &&& fills is Ok <==> view.note is None
            &&& fills is Err ==> after@ == state && view.applied_fills == 0
                && view.cycles_completed == 0 && fills->Err_0 is Unsupported
            &&& fills is Ok ==> reconciled(
                state,
                fills_of(fills->Ok_0@),
                state.reconciled_through,
                today,
            ) == Some(
                Reconciled {
                    position: after@,
                    applied: view.applied_fills as nat,
                    cycles: view.cycles_completed as nat,
                },
            )
        },
        r matches Some(Err(e)) ==> fills == Err::<Vec<Fill>, DomainError>(e) && e !is Unsupported,
        fills matches Err(DomainError::Unsupported(msg)) ==> (r matches Some(
            Ok((_, view, _)),
        ) ==> (view.note matches Some(note) && note@ == "fills not reconciled: "@ + msg@)),
{
}

/// A reconcile comes to nothing only where an amount leaves the range: the counter before it, the
/// posting of the fills, or the counter after it.
pub proof fn law_a_reconcile_comes_where_amounts_fit(
    r: Option<Result<(Position, ReconcileView, bool), DomainError>>,
    state: PositionView,
    fills: Result<Vec<Fill>, DomainError>,
    today: Civil,
)
    requires
        is_reconcile(r, state, fills, today),
        tranches(state.seed, state.splits, state.cum_spent) is Some,
        fills matches Ok(reported) ==> ({
            let due = reconciled(state, fills_of(reported@), state.reconciled_through, today);
            &&& due is Some
            &&& tranches(
                due->0.position.seed,
                due->0.position.splits,
                due->0.position.cum_spent,
            ) is Some
        }),
    ensures
        r is Some,
        fills is Ok ==> r->0 is Ok,
        fills matches Err(e) ==> (r->0 is Err <==> e !is Unsupported),
{
}

/// A tick that does not start has a reason: the strategy or a check has an amount out of range,
/// or the first order with a complaint is told it, as a risk.
pub proof fn law_a_tick_is_refused_for_a_reason<S: Strategy>(
    r: Option<Result<TickRun, DomainError>>,
    strategy: S,
    state: PositionView,
    quote_price: Dec,
    quote_day: Civil,
    permit: PermitView,
    reconciled_fills: nat,
    reconcile_note: Option<Seq<char>>,
    today: Civil,
    orders: Seq<IntentView>,
)
    requires
        is_tick_start(
            r,
            strategy,
            state,
            quote_price,
            quote_day,
            permit,
            reconciled_fills,
            reconcile_note,
            today,
        ),
        strategy.decision(
            state,
            MarketView { ticker: state.ticker, price: quote_price, as_of: quote_day },
        ) == Some(orders),
        tranches(state.seed, state.splits, state.cum_spent) is Some,
    ensures
        ({
            let kept = orders.filter(|intent: IntentView| intent.shares > 0);
            let ok = Some(Ok::<(), Seq<char>>(()));
            &&& r is None ==> exists|i: int|
                0 <= i < kept.len() && verdict(#[trigger] kept[i], state, quote_price) is None
            &&& r matches Some(Err(e)) ==> (e@ matches Failure::Risk(text) && exists|i: int|
                0 <= i < kept.len() && verdict(#[trigger] kept[i], state, quote_price) == Some(
                    Err::<(), Seq<char>>(text),
                ) && forall|j: int|
                    0 <= j < i ==> verdict(#[trigger] kept[j], state, quote_price) == ok)
        }),
{
    law_noops_alone_are_dropped(orders);
    let kept = orders.filter(|intent: IntentView| intent.shares > 0);
    if verdict_of_all(kept, state, quote_price) != Some(Ok::<(), Seq<char>>(())) {
        let i = lemma_first_complaint(kept, state, quote_price);
        assert(verdict(kept[i], state, quote_price) == verdict_of_all(kept, state, quote_price));
    }
}

/// Where not every order passes, there is a first one that does not.
proof fn lemma_first_complaint(intents: Seq<IntentView>, p: PositionView, reference: Dec) -> (r:
    int)
    requires
        verdict_of_all(intents, p, reference) != Some(Ok::<(), Seq<char>>(())),
    ensures
        0 <= r < intents.len(),
        verdict(intents[r], p, reference) == verdict_of_all(intents, p, reference),
        forall|j: int|
            0 <= j < r ==> verdict(#[trigger] intents[j], p, reference) == Some(
                Ok::<(), Seq<char>>(()),
            ),
    decreases intents.len(),
{
    let front = intents.drop_last();
    if verdict_of_all(front, p, reference) != Some(Ok::<(), Seq<char>>(())) {
        let r = lemma_first_complaint(front, p, reference);
        assert forall|j: int| 0 <= j < r implies verdict(#[trigger] intents[j], p, reference)
            == Some(Ok::<(), Seq<char>>(())) by {
            assert(front[j] == intents[j]);
        }
        assert(front[r] == intents[r]);
        r
    } else {
        law_no_partial_strategy(front, p, reference);
        assert forall|j: int| 0 <= j < intents.len() - 1 implies verdict(
            #[trigger] intents[j],
            p,
            reference,
        ) == Some(Ok::<(), Seq<char>>(())) by {
            assert(front[j] == intents[j]);
        }
        intents.len() - 1
    }
}

/// The model of an order of a tick shows what became of it.
pub proof fn law_the_model_of_an_outcome(order: TickOrder)
    ensures
        order@.intent == order.intent@,
        order@.status == order.status,
        order.order_id matches Some(id) ==> order@.order_id == Some(id@),
        order.order_id is None ==> order@.order_id is None,
        order.error matches Some(e) ==> order@.error == Some(e@),
        order.error is None ==> order@.error is None,
{
}

/// A saved ledger is gone by, whatever the template; the template counts only without one. A
/// balance that failed is left out, and one that did not is shown.
pub proof fn law_what_was_saved_is_gone_by(
    saved: Position,
    template: Position,
    balance: Result<Money, DomainError>,
)
    ensures
        ledger_of(Some(saved), template) == saved,
        ledger_of(None, template) == template,
        shown_balance(balance) is Some <==> balance is Ok,
        balance matches Ok(m) ==> shown_balance(balance) == Some(m),
{
}

} // verus!

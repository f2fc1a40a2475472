//! One tick from end to end: what is asked of the ledger, the broker and the journal, in
//! which order, and what is done with each answer.
//!
//! A tick begins with the consent gate. Then the saved ledger is loaded, the fills since its
//! mark are scanned and folded in, the advance is saved (only when executing), a quote is
//! fetched, and the orders are decided on, vetted, and placed one by one.

use crate::date::{day_number, Civil, Date, FIRST_DAY};
use crate::error::DomainError;
use crate::market::Quote;
use crate::ports::{Capabilities, Strategy};
use crate::position::{Fill, Position};
use crate::usecases::{
    is_permitted, is_reconcile, is_tick_start, lacks_consent, ledger_of, no_consent, place_orders,
    reconcile_into, require_consent, scan_start, text_of, Permit, PermitView, ReconcileView,
    TickRun, RECONCILE_LOOKBACK_DAYS,
};
use vstd::prelude::*;

verus! {

/// A tick that waits for the saved ledger of its position.
#[derive(Debug)]
pub struct TickSetup {
    permit: Permit,
    template: Position,
    today: Date,
}

/// The model of a [`TickSetup`]: its permit, the flat position of the configuration, used where
/// no ledger is saved, and the day.
pub struct SetupView {
    pub permit: PermitView,
    pub template: Position,
    pub today: Date,
}

impl View for TickSetup {
    type V = SetupView;

    closed spec fn view(&self) -> SetupView {
        SetupView { permit: self.permit@, template: self.template, today: self.today }
    }
}

/// A tick that waits for the fills of its position since a day.
#[derive(Debug)]
pub struct TickScan {
    permit: Permit,
    state: Position,
    since: Date,
    today: Date,
}

/// The model of a [`TickScan`]: its permit, the ledger, the day from which fills are wanted, and
/// the day.
pub struct TickScanView {
    pub permit: PermitView,
    pub state: Position,
    pub since: Date,
    pub today: Date,
}

impl View for TickScan {
    type V = TickScanView;

    closed spec fn view(&self) -> TickScanView {
        TickScanView {
            permit: self.permit@,
            state: self.state,
            since: self.since,
            today: self.today,
        }
    }
}

/// A tick with an up-to-date ledger, which waits for a quote.
#[derive(Debug)]
pub struct TickReady {
    permit: Permit,
    state: Position,
    reconcile: ReconcileView,
    today: Date,
}

/// The model of a [`TickReady`]: its permit, the ledger, what the reconcile came to, and the
/// day.
pub struct ReadyView {
    pub permit: PermitView,
    pub state: Position,
    pub reconcile: ReconcileView,
    pub today: Date,
}

impl View for TickReady {
    type V = ReadyView;

    closed spec fn view(&self) -> ReadyView {
        ReadyView {
            permit: self.permit@,
            state: self.state,
            reconcile: self.reconcile,
            today: self.today,
        }
    }
}

/// What follows on the scan.
#[derive(Debug)]
pub enum AfterScan {
    /// The ledger is to be saved before the tick goes on.
    Save(TickReady),
    /// The tick goes on at once.
    Quote(TickReady),
}

/// Begin a tick. Without the consent that a real account takes, nothing is read or sent: every
/// later step takes what comes out of here.
pub fn begin_tick(
    execute: bool,
    allow_real: bool,
    capabilities: Capabilities,
    template: Position,
    today: Date,
) -> (r: Result<TickSetup, DomainError>)
    ensures
        match r {
            Ok(setup) => {
                &&& setup@.permit.is_granted()
                &&& setup@ == (SetupView {
                    permit: PermitView {
                        execute,
                        allow_real,
                        paper_account: capabilities.paper_account,
                    },
                    template,
                    today,
                })
            },
            Err(e) => lacks_consent(execute, allow_real, capabilities.paper_account) && e@
                == no_consent(),
        },
{
    match require_consent(execute, allow_real, capabilities) {
        Ok(permit) => Ok(TickSetup { permit, template, today }),
        Err(e) => Err(e),
    }
}

/// The day from which fills are scanned: the mark of the ledger, or else the lookback.
pub open spec fn is_scan_start(state: Position, today: Civil, since: Date) -> bool {
    match state.reconciled_through {
        Some(mark) => since == mark,
        None => day_number(since@) == if day_number(today) - RECONCILE_LOOKBACK_DAYS < FIRST_DAY {
            FIRST_DAY as int
        } else {
            day_number(today) - RECONCILE_LOOKBACK_DAYS
        },
    }
}

impl TickSetup {
    /// Go on with the saved ledger, or with the template where there is none.
    pub fn loaded(self, saved: Result<Option<Position>, DomainError>) -> (r: Result<
        TickScan,
        DomainError,
    >)
        ensures
            match r {
                Ok(scan) => {
                    &&& saved is Ok
                    &&& scan@.permit == self@.permit
                    &&& scan@.today == self@.today
                    &&& scan@.state == match saved->Ok_0 {
                        Some(p) => p,
                        None => self@.template,
                    }
                    &&& scan@.state == ledger_of(saved->Ok_0, self@.template)
                    &&& is_scan_start(scan@.state, self@.today@, scan@.since)
                },
                Err(e) => saved == Err::<Option<Position>, DomainError>(e),
            },
    {
        let state = match saved {
            Ok(Some(p)) => p,
            Ok(None) => self.template,
            Err(e) => return Err(e),
        };
        let since = scan_start(&state, self.today);
        Ok(TickScan { permit: self.permit, state, since, today: self.today })
    }
}

/// The outcome of the reconcile inside an outcome of a scan.
pub open spec fn reconcile_outcome(
    r: Option<Result<AfterScan, DomainError>>,
) -> Option<Result<(Position, ReconcileView, bool), DomainError>> {
    match r {
        None => None,
        Some(Err(e)) => Some(Err(e)),
        Some(Ok(AfterScan::Save(ready))) => Some(Ok((ready@.state, ready@.reconcile, true))),
        Some(Ok(AfterScan::Quote(ready))) => Some(
            Ok((ready@.state, ready@.reconcile, ready@.reconcile.applied_fills > 0)),
        ),
    }
}

/// Whether what follows on a scan is right: the ledger is saved first exactly when executing and
/// only if it advanced.
pub open spec fn is_next(next: AfterScan, execute: bool) -> bool {
    match next {
        AfterScan::Save(ready) => execute && ready@.reconcile.applied_fills > 0,
        AfterScan::Quote(ready) => !execute || ready@.reconcile.applied_fills == 0,
    }
}

impl TickScan {
    /// The ledger before the fills.
    pub fn state(&self) -> (r: &Position)
        ensures
            *r == self@.state,
    {
        &self.state
    }

    /// The day from which fills are wanted.
    pub fn since(&self) -> (r: Date)
        ensures
            r == self@.since,
    {
        self.since
    }

    /// Fold the fills into the ledger. The advance is saved only when executing, and only if
    /// there is one: a preview leaves what is stored as it is.
    pub fn scanned(self, fills: Result<Vec<Fill>, DomainError>) -> (r: Option<
        Result<AfterScan, DomainError>,
    >)
        ensures
            is_reconcile(reconcile_outcome(r), self@.state@, fills, self@.today@),
            r matches Some(Ok(next)) ==> is_next(next, self@.permit.execute),
            r matches Some(Ok(AfterScan::Save(ready))) ==> self@.permit.execute
                && ready@.reconcile.applied_fills > 0 && ready@.permit == self@.permit
                && ready@.today == self@.today,
            r matches Some(Ok(AfterScan::Quote(ready))) ==> (!self@.permit.execute
                || ready@.reconcile.applied_fills == 0) && ready@.permit == self@.permit
                && ready@.today == self@.today,
    {
        let execute = self.permit.executes();
        match reconcile_into(self.state, fills, self.today) {
            None => None,
            Some(Err(e)) => Some(Err(e)),
            Some(Ok((state, reconcile, advanced))) => {
                let ready = TickReady { permit: self.permit, state, reconcile, today: self.today };
                if execute && advanced {
                    Some(Ok(AfterScan::Save(ready)))
                } else {
                    Some(Ok(AfterScan::Quote(ready)))
                }
            },
        }
    }
}

impl TickReady {
    /// The ledger after the fills.
    pub fn state(&self) -> (r: &Position)
        ensures
            *r == self@.state,
    {
        &self.state
    }

    /// Go on after the ledger was saved; a failure to save it ends the tick before any order.
    pub fn saved(self, outcome: Result<(), DomainError>) -> (r: Result<TickReady, DomainError>)
        ensures
            match r {
                Ok(ready) => outcome is Ok && ready == self,
                Err(e) => outcome == Err::<(), DomainError>(e),
            },
    {
        match outcome {
            Ok(()) => Ok(self),
            Err(e) => Err(e),
        }
    }

    /// Decide on the orders with a quote, and get them ready to be placed. `None` where an
    /// amount leaves the range.
    pub fn quoted<S: Strategy>(self, strategy: &S, quote: Result<Quote, DomainError>) -> (r: Option<
        Result<TickRun, DomainError>,
    >)
        ensures
            match quote {
                Ok(quote) => is_tick_start(
                    r,
                    *strategy,
                    self@.state@,
                    quote.price@,
                    quote.as_of@,
                    self@.permit,
                    self@.reconcile.applied_fills as nat,
                    text_of(self@.reconcile.note),
                    self@.today@,
                ),
                Err(e) => r == Some(Err::<TickRun, DomainError>(e)),
            },
            r matches Some(Ok(run)) ==> is_permitted(run@),
    {
        match quote {
            Ok(quote) => place_orders(
                strategy,
                &self.state,
                &quote,
                self.permit,
                self.reconcile.applied_fills,
                self.reconcile.note,
                self.today,
            ),
            Err(e) => Some(Err(e)),
        }
    }
}

/// Fills are scanned from the mark of the ledger. One without a mark is scanned from ninety days
/// before today, or from the first day of the calendar where that is later.
pub proof fn law_the_scan_goes_back_to_the_mark(state: Position, today: Civil, since: Date)
    requires
        is_scan_start(state, today, since),
    ensures
        state.reconciled_through matches Some(mark) ==> since == mark,
        state.reconciled_through is None && day_number(today) - 90 >= FIRST_DAY ==> day_number(
            since@,
        ) == day_number(today) - 90,
        state.reconciled_through is None && day_number(today) - 90 < FIRST_DAY ==> day_number(
            since@,
        ) == FIRST_DAY,
{
}

/// The outcome of a scan holds the ledger and the reconcile, whether the ledger is saved first
/// or not, and its error where it failed.
pub proof fn law_the_outcome_of_a_scan(ready: TickReady, e: DomainError)
    ensures
        reconcile_outcome(Some(Ok(AfterScan::Save(ready)))) == Some(
            Ok::<(Position, ReconcileView, bool), DomainError>(
                (ready@.state, ready@.reconcile, true),
            ),
        ),
        reconcile_outcome(Some(Ok(AfterScan::Quote(ready)))) == Some(
            Ok::<(Position, ReconcileView, bool), DomainError>(
                (ready@.state, ready@.reconcile, ready@.reconcile.applied_fills > 0),
            ),
        ),
        reconcile_outcome(Some(Err(e))) == Some(
            Err::<(Position, ReconcileView, bool), DomainError>(e),
        ),
        reconcile_outcome(None) is None,
{
}

/// A preview never saves the ledger, and neither does a tick that folded in no fill; one that
/// executes saves it wherever it advanced.
pub proof fn law_ledgers_are_saved_when_they_advance(next: AfterScan, execute: bool)
    requires
        is_next(next, execute),
    ensures
        !execute ==> next is Quote,
        next matches AfterScan::Save(ready) ==> ready@.reconcile.applied_fills > 0,
        next matches AfterScan::Quote(ready) ==> (execute ==> ready@.reconcile.applied_fills == 0),
{
}

} // verus!

//! What the commands print, line by line.

use crate::backtest::BacktestReport;
use crate::config::{AppConfig, ConfigView, PositionConfig};
use crate::date::{date_text, Civil, Date};
use crate::decimal::{decimal_text, Dec};
use crate::market::{broker_name, BrokerId, Quote, Side};
use crate::money::{money_text, Money, Price};
use crate::order::{price_of, IntentView, OrderIntent, OrderKind};
use crate::paper::holdings_of;
use crate::ports::{intents_of, Capabilities};
use crate::position::{
    day_of, fills_of, tranches, Fill, FillView, HoldingView, Position, PositionView,
};
use crate::text::{
    digits, join3, number_text, pad_left, pad_right, padded_left, padded_right, same, texts_of,
};
use crate::usecases::{
    orders_of, text_of, AccountView, DryRunView, ReconcileView, TickOrder, TickOrderView,
    TickStatus, TickView,
};
use vstd::prelude::*;
use vstd::string::*;

verus! {

/// Add a line.
fn push_line(lines: &mut Vec<String>, line: String)
    ensures
        texts_of(final(lines)@) == texts_of(old(lines)@).push(line@),
{
    let ghost text = line@;
    lines.push(line);
    assert(texts_of(lines@) =~= texts_of(old(lines)@).push(text));
}

/// The word for a side.
pub open spec fn side_word(side: Side) -> Seq<char> {
    match side {
        Side::Buy => "Buy"@,
        Side::Sell => "Sell"@,
    }
}

/// The word for a side.
pub fn side_text(side: Side) -> (r: &'static str)
    ensures
        r@ == side_word(side),
{
    match side {
        Side::Buy => "Buy",
        Side::Sell => "Sell",
    }
}

/// The word for a kind of order.
pub open spec fn kind_word(kind: OrderKind) -> Seq<char> {
    match kind {
        OrderKind::LimitOnClose => "LimitOnClose"@,
        OrderKind::Limit => "Limit"@,
        OrderKind::Market => "Market"@,
    }
}

/// The word for a kind of order.
pub fn kind_text(kind: OrderKind) -> (r: &'static str)
    ensures
        r@ == kind_word(kind),
{
    match kind {
        OrderKind::LimitOnClose => "LimitOnClose",
        OrderKind::Limit => "Limit",
        OrderKind::Market => "Market",
    }
}

/// The word for an outcome.
pub open spec fn status_word(status: TickStatus) -> Seq<char> {
    match status {
        TickStatus::Placed => "PLACED"@,
        TickStatus::SkippedIdempotent => "skip(dup)"@,
        TickStatus::WouldPlace => "would-place"@,
        TickStatus::Failed => "FAILED"@,
    }
}

/// The word for an outcome.
pub fn status_text(status: TickStatus) -> (r: &'static str)
    ensures
        r@ == status_word(status),
{
    match status {
        TickStatus::Placed => "PLACED",
        TickStatus::SkippedIdempotent => "skip(dup)",
        TickStatus::WouldPlace => "would-place",
        TickStatus::Failed => "FAILED",
    }
}

/// A price in writing, or another text where there is none.
pub open spec fn price_or(p: Option<Dec>, other: Seq<char>) -> Seq<char> {
    match p {
        Some(p) => decimal_text(p),
        None => other,
    }
}

/// A price in writing, or another text where there is none.
fn price_text_or(p: Option<Price>, other: &str) -> (r: String)
    ensures
        r@ == price_or(price_of(p), other@),
{
    match p {
        Some(p) => p.to_text(),
        None => other.to_owned(),
    }
}

/// An order in writing: side, shares, kind, limit and tag.
pub open spec fn intent_words(i: IntentView) -> Seq<char> {
    side_word(i.side) + " "@ + digits(i.shares as nat) + " "@ + kind_word(i.kind) + " @ "@
        + price_or(i.limit, "MKT"@) + " ["@ + i.tag + "]"@
}

/// An order in writing.
pub fn intent_text(i: &OrderIntent) -> (r: String)
    ensures
        r@ == intent_words(i@),
{
    let mut s: String = side_text(i.side).to_owned();
    s.append(" ");
    s.append(i.shares.to_text().as_str());
    s.append(" ");
    s.append(kind_text(i.kind));
    s.append(" @ ");
    s.append(price_text_or(i.limit, "MKT").as_str());
    s.append(" [");
    s.append(i.tag);
    s.append("]");
    s
}

/// The line of one order of a tick.
pub open spec fn order_line(o: TickOrderView) -> Seq<char> {
    let base = "  ["@ + status_word(o.status) + "] "@ + intent_words(o.intent);
    let with_id = match o.order_id {
        Some(id) => base + " id="@ + id,
        None => base,
    };
    match o.error {
        Some(e) => with_id + " error="@ + e,
        None => with_id,
    }
}

/// The line of one order of a tick.
pub fn order_text(o: &TickOrder) -> (r: String)
    ensures
        r@ == order_line(o@),
{
    let mut s: String = "  [".to_owned();
    s.append(status_text(o.status));
    s.append("] ");
    s.append(intent_text(&o.intent).as_str());
    if let Some(id) = &o.order_id {
        s.append(" id=");
        s.append(id.as_str());
    }
    if let Some(e) = &o.error {
        s.append(" error=");
        s.append(e.as_str());
    }
    s
}

/// The lines of a list of orders.
pub open spec fn order_lines(orders: Seq<TickOrderView>) -> Seq<Seq<char>> {
    Seq::new(orders.len(), |i: int| order_line(orders[i]))
}

/// The first line of a tick.
pub open spec fn tick_header(name: Seq<char>, ticker: Seq<char>, price: Dec, t: Dec) -> Seq<char> {
    "Tick "@ + name + ": "@ + ticker + " @ "@ + decimal_text(price) + " (T="@ + decimal_text(t)
        + ")"@
}

/// The lines of a tick: what was looked at, what was reconciled, notes, the orders, and the
/// reminder that a preview places nothing.
pub open spec fn tick_lines(
    name: Seq<char>,
    ticker: Seq<char>,
    price: Dec,
    t: Dec,
    executed: bool,
    reconciled_fills: nat,
    orders: Seq<TickOrderView>,
    note: Option<Seq<char>>,
) -> Seq<Seq<char>> {
    let head = seq![tick_header(name, ticker, price, t)];
    let folded = if reconciled_fills > 0 {
        head.push("  reconciled "@ + digits(reconciled_fills) + " fill(s) before deciding"@)
    } else {
        head
    };
    let noted = match note {
        Some(n) => folded.push("NOTE: "@ + n),
        None => folded,
    };
    let listed = if orders.len() == 0 {
        noted.push("  (no orders today)"@)
    } else {
        noted + order_lines(orders)
    };
    if executed {
        listed
    } else {
        listed.push(
            "NOTE: preview only — pass --execute to place (KIS 모의 needs --execute; real needs --execute --live)."@,
        )
    }
}

/// The lines of a tick.
pub fn print_tick(name: &str, view: &TickView) -> (r: Vec<String>)
    ensures
        texts_of(r@) == tick_lines(
            name@,
            view.ticker@,
            view.price@,
            view.t@,
            view.executed,
            view.reconciled_fills as nat,
            orders_of(view.orders@),
            text_of(view.note),
        ),
{
    let mut lines: Vec<String> = Vec::new();
    assert(texts_of(lines@) =~= Seq::<Seq<char>>::empty());
    let mut head: String = "Tick ".to_owned();
    head.append(name);
    head.append(": ");
    head.append(view.ticker.as_str());
    head.append(" @ ");
    head.append(view.price.to_text().as_str());
    head.append(" (T=");
    head.append(view.t.to_text().as_str());
    head.append(")");
    push_line(&mut lines, head);
    assert(texts_of(lines@) =~= seq![tick_header(name@, view.ticker@, view.price@, view.t@)]);
    if view.reconciled_fills > 0 {
        let mut s: String = "  reconciled ".to_owned();
        s.append(number_text(view.reconciled_fills as u64).as_str());
        s.append(" fill(s) before deciding");
        push_line(&mut lines, s);
    }
    if let Some(note) = &view.note {
        let mut s: String = "NOTE: ".to_owned();
        s.append(note.as_str());
        push_line(&mut lines, s);
    }
    if view.orders.len() == 0 {
        push_line(&mut lines, "  (no orders today)".to_owned());
    }
    push_orders(&mut lines, &view.orders);
    if !view.executed {
        push_line(
            &mut lines,
            "NOTE: preview only — pass --execute to place (KIS 모의 needs --execute; real needs --execute --live).".to_owned(),
        );
    }
    assert(texts_of(lines@) =~= tick_lines(
        name@,
        view.ticker@,
        view.price@,
        view.t@,
        view.executed,
        view.reconciled_fills as nat,
        orders_of(view.orders@),
        text_of(view.note),
    ));
    lines
}

/// Add the lines of a list of orders.
fn push_orders(lines: &mut Vec<String>, orders: &[TickOrder])
    ensures
        texts_of(final(lines)@) == texts_of(old(lines)@) + order_lines(orders_of(orders@)),
{
    let ghost start = texts_of(lines@);
    let ghost all = order_lines(orders_of(orders@));
    let mut i: usize = 0;
    assert(start =~= start + all.take(0));
    while i < orders.len()
        invariant
            i <= orders.len(),
            all == order_lines(orders_of(orders@)),
            texts_of(lines@) == start + all.take(i as int),
        decreases orders.len() - i,
    {
        push_line(lines, order_text(&orders[i]));
        assert(start + all.take(i as int).push(all[i as int]) =~= start + all.take(i + 1));
        assert(texts_of(lines@) =~= start + all.take(i + 1));
        i += 1;
    }
    assert(all.take(i as int) =~= all);
}

/// The lines of a reconcile.
pub open spec fn reconcile_lines(
    name: Seq<char>,
    ticker: Seq<char>,
    applied: nat,
    cycles: nat,
    t_before: Dec,
    t_after: Dec,
    through: Option<Civil>,
    note: Option<Seq<char>>,
) -> Seq<Seq<char>> {
    let head = seq![
        "Reconcile "@ + name + ": "@ + ticker + " — applied "@ + digits(applied) + " fill(s), "@
            + digits(cycles) + " cycle(s); T "@ + decimal_text(t_before) + " -> "@
            + decimal_text(t_after),
    ];
    let marked = match through {
        Some(d) => head.push("  reconciled through "@ + date_text(d)),
        None => head,
    };
    match note {
        Some(n) => marked.push("NOTE: "@ + n),
        None => marked,
    }
}

/// The lines of a reconcile.
pub fn print_reconcile(name: &str, view: &ReconcileView) -> (r: Vec<String>)
    ensures
        texts_of(r@) == reconcile_lines(
            name@,
            view.ticker@,
            view.applied_fills as nat,
            view.cycles_completed as nat,
            view.t_before@,
            view.t_after@,
            day_of(view.through),
            text_of(view.note),
        ),
{
    let mut lines: Vec<String> = Vec::new();
    assert(texts_of(lines@) =~= Seq::<Seq<char>>::empty());
    let mut head: String = "Reconcile ".to_owned();
    head.append(name);
    head.append(": ");
    head.append(view.ticker.as_str());
    head.append(" — applied ");
    head.append(number_text(view.applied_fills as u64).as_str());
    head.append(" fill(s), ");
    head.append(number_text(view.cycles_completed as u64).as_str());
    head.append(" cycle(s); T ");
    head.append(view.t_before.to_text().as_str());
    head.append(" -> ");
    head.append(view.t_after.to_text().as_str());
    push_line(&mut lines, head);
    if let Some(through) = view.through {
        let mut s: String = "  reconciled through ".to_owned();
        s.append(through.to_text().as_str());
        push_line(&mut lines, s);
    }
    if let Some(note) = &view.note {
        let mut s: String = "NOTE: ".to_owned();
        s.append(note.as_str());
        push_line(&mut lines, s);
    }
    assert(texts_of(lines@) =~= reconcile_lines(
        name@,
        view.ticker@,
        view.applied_fills as nat,
        view.cycles_completed as nat,
        view.t_before@,
        view.t_after@,
        day_of(view.through),
        text_of(view.note),
    ));
    lines
}

/// The lines of the orders of a dry run.
pub open spec fn intent_lines(intents: Seq<IntentView>) -> Seq<Seq<char>> {
    Seq::new(intents.len(), |i: int| "  "@ + intent_words(intents[i]))
}

/// The lines of a dry run.
pub open spec fn dry_run_lines(
    name: Seq<char>,
    ticker: Seq<char>,
    price: Dec,
    t: Dec,
    avg_price: Option<Dec>,
    intents: Seq<IntentView>,
) -> Seq<Seq<char>> {
    let head = seq![
        "Dry-run "@ + name + ": "@ + ticker + " @ "@ + decimal_text(price) + " (T="@
            + decimal_text(t) + ", avg="@ + price_or(avg_price, "-"@) + ")"@,
    ];
    let listed = if intents.len() == 0 {
        head.push("  (no orders today)"@)
    } else {
        head + intent_lines(intents)
    };
    listed.push("NOTE: dry-run only — no orders were placed."@)
}

/// The lines of a dry run.
pub fn print_dry_run(name: &str, view: &DryRunView) -> (r: Vec<String>)
    ensures
        texts_of(r@) == dry_run_lines(
            name@,
            view.ticker@,
            view.price@,
            view.t@,
            price_of(view.avg_price),
            intents_of(view.intents@),
        ),
{
    let mut lines: Vec<String> = Vec::new();
    assert(texts_of(lines@) =~= Seq::<Seq<char>>::empty());
    let mut head: String = "Dry-run ".to_owned();
    head.append(name);
    head.append(": ");
    head.append(view.ticker.as_str());
    head.append(" @ ");
    head.append(view.price.to_text().as_str());
    head.append(" (T=");
    head.append(view.t.to_text().as_str());
    head.append(", avg=");
    head.append(price_text_or(view.avg_price, "-").as_str());
    head.append(")");
    push_line(&mut lines, head);
    if view.intents.len() == 0 {
        push_line(&mut lines, "  (no orders today)".to_owned());
    }
    let ghost start = texts_of(lines@);
    let ghost all = intent_lines(intents_of(view.intents@));
    let mut i: usize = 0;
    assert(start =~= start + all.take(0));
    while i < view.intents.len()
        invariant
            i <= view.intents.len(),
            all == intent_lines(intents_of(view.intents@)),
            texts_of(lines@) == start + all.take(i as int),
        decreases view.intents.len() - i,
    {
        let mut s: String = "  ".to_owned();
        s.append(intent_text(&view.intents[i]).as_str());
        push_line(&mut lines, s);
        assert(texts_of(lines@) =~= start + all.take(i + 1));
        i += 1;
    }
    assert(all.take(i as int) =~= all);
    push_line(&mut lines, "NOTE: dry-run only — no orders were placed.".to_owned());
    assert(texts_of(lines@) =~= dry_run_lines(
        name@,
        view.ticker@,
        view.price@,
        view.t@,
        price_of(view.avg_price),
        intents_of(view.intents@),
    ));
    lines
}

/// The word for a truth value.
pub open spec fn bool_word(b: bool) -> Seq<char> {
    if b {
        "true"@
    } else {
        "false"@
    }
}

/// The word for a truth value.
fn bool_text(b: bool) -> (r: &'static str)
    ensures
        r@ == bool_word(b),
{
    if b {
        "true"
    } else {
        "false"
    }
}

/// The line of one holding.
pub open spec fn holding_line(h: HoldingView) -> Seq<char> {
    "  "@ + h.ticker + " qty="@ + digits(h.shares as nat) + " avg="@ + price_or(h.avg_price, "-"@)
}

/// The lines of a list of holdings.
pub open spec fn holding_lines(holdings: Seq<HoldingView>) -> Seq<Seq<char>> {
    Seq::new(holdings.len(), |i: int| holding_line(holdings[i]))
}

/// The lines of an account.
pub open spec fn account_lines(
    broker: BrokerId,
    c: Capabilities,
    holdings: Seq<HoldingView>,
    balance: Option<Dec>,
) -> Seq<Seq<char>> {
    let head = seq![
        "Broker "@ + broker_name(broker) + " (realtime="@ + bool_word(c.realtime_quotes)
            + ", paper="@ + bool_word(c.paper_account) + ", orders="@ + bool_word(
            c.order_placement,
        ) + ", overseas="@ + bool_word(c.overseas) + ")"@,
    ];
    let listed = if holdings.len() == 0 {
        head.push("No holdings."@)
    } else {
        head + holding_lines(holdings)
    };
    listed.push(
        match balance {
            Some(m) => "Cash/eval: "@ + money_text(m),
            None => "Cash/eval: unavailable"@,
        },
    )
}

/// The amount of an optional balance.
pub open spec fn amount_of(m: Option<Money>) -> Option<Dec> {
    match m {
        Some(m) => Some(m@),
        None => None,
    }
}

/// The lines of an account.
pub fn print_account(view: &AccountView) -> (r: Vec<String>)
    ensures
        texts_of(r@) == account_lines(
            view.broker,
            view.capabilities,
            holdings_of(view.holdings@),
            amount_of(view.balance),
        ),
{
    let mut lines: Vec<String> = Vec::new();
    assert(texts_of(lines@) =~= Seq::<Seq<char>>::empty());
    let c = view.capabilities;
    let mut head: String = "Broker ".to_owned();
    head.append(view.broker.as_str());
    head.append(" (realtime=");
    head.append(bool_text(c.realtime_quotes));
    head.append(", paper=");
    head.append(bool_text(c.paper_account));
    head.append(", orders=");
    head.append(bool_text(c.order_placement));
    head.append(", overseas=");
    head.append(bool_text(c.overseas));
    head.append(")");
    push_line(&mut lines, head);
    if view.holdings.len() == 0 {
        push_line(&mut lines, "No holdings.".to_owned());
    }
    let ghost start = texts_of(lines@);
    let ghost all = holding_lines(holdings_of(view.holdings@));
    let mut i: usize = 0;
    assert(start =~= start + all.take(0));
    while i < view.holdings.len()
        invariant
            i <= view.holdings.len(),
            all == holding_lines(holdings_of(view.holdings@)),
            texts_of(lines@) == start + all.take(i as int),
        decreases view.holdings.len() - i,
    {
        let h = &view.holdings[i];
        let mut s: String = "  ".to_owned();
        s.append(h.ticker.as_str());
        s.append(" qty=");
        s.append(h.shares.to_text().as_str());
        s.append(" avg=");
        s.append(price_text_or(h.avg_price, "-").as_str());
        push_line(&mut lines, s);
        assert(texts_of(lines@) =~= start + all.take(i + 1));
        i += 1;
    }
    assert(all.take(i as int) =~= all);
    match view.balance {
        Some(balance) => {
            let mut s: String = "Cash/eval: ".to_owned();
            s.append(balance.to_text().as_str());
            push_line(&mut lines, s);
        },
        None => {
            push_line(&mut lines, "Cash/eval: unavailable".to_owned());
        },
    }
    assert(texts_of(lines@) =~= account_lines(
        view.broker,
        view.capabilities,
        holdings_of(view.holdings@),
        amount_of(view.balance),
    ));
    lines
}

/// The mark for the environment of an account: real money, paper money, or an account that is
/// not registered, which is neither.
pub open spec fn environment_mark(env: Option<Seq<char>>) -> Seq<char> {
    match env {
        Some(env) => if env == "real"@ {
            "[REAL]"@
        } else {
            "[paper]"@
        },
        None => "[unregistered]"@,
    }
}

/// The environment that an account is registered with, if it is.
pub open spec fn registered_env(config: ConfigView, account: Seq<char>) -> Option<Seq<char>> {
    match config.account(account) {
        Some(a) => Some(a.env),
        None => None,
    }
}

/// The mark for the environment of an account.
pub fn environment_text(config: &AppConfig, account: &str) -> (r: &'static str)
    ensures
        r@ == environment_mark(registered_env(config@, account@)),
{
    match config.find_account(account) {
        Some(found) => if same(found.env.as_str(), "real") {
            "[REAL]"
        } else {
            "[paper]"
        },
        None => "[unregistered]",
    }
}

/// The line of one position, given its tranche counter and the environment of its account.
pub open spec fn status_line(p: PositionView, t: Dec, env: Option<Seq<char>>) -> Seq<char> {
    p.account + " "@ + environment_mark(env) + " "@ + broker_name(p.broker) + " "@ + p.ticker
        + " T="@ + padded_right(decimal_text(t), 5) + " avg="@ + padded_left(
        price_or(p.avg_price, "-"@),
        8,
    ) + " shares="@ + digits(p.shares as nat) + " cum="@ + money_text(p.cum_spent)
        + " realized="@ + money_text(p.realized_pnl) + " cycle="@ + digits(p.cycle_index as nat)
}

/// The line of one position; `None` where its tranche counter leaves the range.
pub fn status_of(p: &Position, config: &AppConfig) -> (r: Option<String>)
    ensures
        match r {
            Some(s) => tranches(p@.seed, p@.splits, p@.cum_spent) matches Some(t) && s@
                == status_line(p@, t, registered_env(config@, p@.account)),
            None => tranches(p@.seed, p@.splits, p@.cum_spent) is None,
        },
{
    let t = match p.try_t() {
        Some(t) => t,
        None => return None,
    };
    let mut s: String = p.account.as_str().to_owned();
    s.append(" ");
    s.append(environment_text(config, p.account.as_str()));
    s.append(" ");
    s.append(p.broker.as_str());
    s.append(" ");
    s.append(p.ticker.as_str());
    s.append(" T=");
    s.append(pad_right(t.to_text().as_str(), 5).as_str());
    s.append(" avg=");
    s.append(pad_left(price_text_or(p.avg_price, "-").as_str(), 8).as_str());
    s.append(" shares=");
    s.append(p.shares.to_text().as_str());
    s.append(" cum=");
    s.append(p.cum_spent.to_text().as_str());
    s.append(" realized=");
    s.append(p.realized_pnl.to_text().as_str());
    s.append(" cycle=");
    s.append(number_text(p.cycle_index as u64).as_str());
    Some(s)
}

/// The line of one fill.
pub open spec fn fill_line(f: FillView) -> Seq<char> {
    "  "@ + date_text(f.at) + " "@ + side_word(f.side) + " "@ + digits(f.shares as nat) + " @ "@
        + decimal_text(f.price)
}

/// The lines of a list of fills.
pub open spec fn fill_lines(
    name: Seq<char>,
    ticker: Seq<char>,
    since: Civil,
    fills: Seq<FillView>,
) -> Seq<Seq<char>> {
    seq![
        "Fills "@ + name + " ("@ + ticker + ") since "@ + date_text(since) + ": "@ + digits(
            fills.len(),
        ) + " fill(s)"@,
    ] + Seq::new(fills.len(), |i: int| fill_line(fills[i]))
}

/// The lines of a list of fills.
pub fn print_fills(name: &str, ticker: &str, since: Date, fills: &[Fill]) -> (r: Vec<String>)
    ensures
        texts_of(r@) == fill_lines(name@, ticker@, since@, fills_of(fills@)),
{
    let ghost rows = Seq::new(fills@.len(), |i: int| fill_line(fills_of(fills@)[i]));
    let mut lines: Vec<String> = Vec::new();
    assert(texts_of(lines@) =~= Seq::<Seq<char>>::empty());
    let mut head: String = "Fills ".to_owned();
    head.append(name);
    head.append(" (");
    head.append(ticker);
    head.append(") since ");
    head.append(since.to_text().as_str());
    head.append(": ");
    head.append(number_text(fills.len() as u64).as_str());
    head.append(" fill(s)");
    push_line(&mut lines, head);
    let ghost start = texts_of(lines@);
    let mut i: usize = 0;
    assert(start =~= start + rows.take(0));
    while i < fills.len()
        invariant
            i <= fills.len(),
            rows == Seq::new(fills@.len(), |i: int| fill_line(fills_of(fills@)[i])),
            texts_of(lines@) == start + rows.take(i as int),
        decreases fills.len() - i,
    {
        let f = &fills[i];
        let mut s: String = "  ".to_owned();
        s.append(f.at.to_text().as_str());
        s.append(" ");
        s.append(side_text(f.side));
        s.append(" ");
        s.append(f.shares.to_text().as_str());
        s.append(" @ ");
        s.append(f.price.to_text().as_str());
        push_line(&mut lines, s);
        assert(texts_of(lines@) =~= start + rows.take(i + 1));
        i += 1;
    }
    assert(rows.take(i as int) =~= rows);
    assert(texts_of(lines@) =~= fill_lines(name@, ticker@, since@, fills_of(fills@)));
    lines
}

/// The line of a quote.
pub open spec fn quote_line(
    broker: Seq<char>,
    ticker: Seq<char>,
    price: Dec,
    as_of: Civil,
) -> Seq<char> {
    broker + " "@ + ticker + " = "@ + decimal_text(price) + " (as of "@ + date_text(as_of) + ")"@
}

/// The line of a quote.
pub fn quote_text(broker: &str, quote: &Quote) -> (r: String)
    ensures
        r@ == quote_line(broker@, quote.ticker@, quote.price@, quote.as_of@),
{
    let mut s: String = broker.to_owned();
    s.append(" ");
    s.append(quote.ticker.as_str());
    s.append(" = ");
    s.append(quote.price.to_text().as_str());
    s.append(" (as of ");
    s.append(quote.as_of.to_text().as_str());
    s.append(")");
    s
}

/// The lines of a backtest, up to the figures that are no decimals.
pub open spec fn report_lines(
    ticker: Seq<char>,
    start: Civil,
    end: Civil,
    seed: Dec,
    equity: Dec,
    pnl: Dec,
    cycles: nat,
    trading_days: nat,
    total_days: nat,
) -> Seq<Seq<char>> {
    seq![
        "Backtest "@ + ticker + " "@ + date_text(start) + " .. "@ + date_text(end),
        "  seed           "@ + money_text(seed),
        "  final equity   "@ + money_text(equity),
        "  realized P&L   "@ + money_text(pnl),
        "  cycles         "@ + digits(cycles),
        "  trading days   "@ + digits(trading_days) + "/"@ + digits(total_days),
    ]
}

/// The lines of a backtest, up to the figures that are no decimals.
pub fn print_report(report: &BacktestReport) -> (r: Vec<String>)
    ensures
        texts_of(r@) == report_lines(
            report.ticker@,
            report.start@,
            report.end@,
            report.initial_seed@,
            report.final_equity@,
            report.realized_pnl@,
            report.cycles_completed as nat,
            report.trading_days as nat,
            report.total_days as nat,
        ),
{
    let mut lines: Vec<String> = Vec::new();
    assert(texts_of(lines@) =~= Seq::<Seq<char>>::empty());
    let mut head: String = "Backtest ".to_owned();
    head.append(report.ticker.as_str());
    head.append(" ");
    head.append(report.start.to_text().as_str());
    head.append(" .. ");
    head.append(report.end.to_text().as_str());
    push_line(&mut lines, head);
    let mut seed: String = "  seed           ".to_owned();
    seed.append(report.initial_seed.to_text().as_str());
    push_line(&mut lines, seed);
    let mut equity: String = "  final equity   ".to_owned();
    equity.append(report.final_equity.to_text().as_str());
    push_line(&mut lines, equity);
    let mut pnl: String = "  realized P&L   ".to_owned();
    pnl.append(report.realized_pnl.to_text().as_str());
    push_line(&mut lines, pnl);
    let mut cycles: String = "  cycles         ".to_owned();
    cycles.append(number_text(report.cycles_completed as u64).as_str());
    push_line(&mut lines, cycles);
    let mut days: String = "  trading days   ".to_owned();
    days.append(number_text(report.trading_days as u64).as_str());
    days.append("/");
    days.append(number_text(report.total_days as u64).as_str());
    push_line(&mut lines, days);
    assert(texts_of(lines@) =~= report_lines(
        report.ticker@,
        report.start@,
        report.end@,
        report.initial_seed@,
        report.final_equity@,
        report.realized_pnl@,
        report.cycles_completed as nat,
        report.trading_days as nat,
        report.total_days as nat,
    ));
    lines
}

/// The line that says a position was added.
pub fn added_text(position: &PositionConfig) -> (r: String)
    ensures
        r@ == "Added position '"@ + position@.name + "' ("@ + position@.broker + " "@
            + position@.ticker + " seed "@ + decimal_text(position@.seed) + " / "@ + digits(
            position@.splits as nat,
        ) + " splits)."@,
{
    let mut s: String = "Added position '".to_owned();
    s.append(position.name.as_str());
    s.append("' (");
    s.append(position.broker.as_str());
    s.append(" ");
    s.append(position.ticker.as_str());
    s.append(" seed ");
    s.append(position.seed.to_text().as_str());
    s.append(" / ");
    s.append(number_text(position.splits as u64).as_str());
    s.append(" splits).");
    s
}

/// The complaint that there is no position of a name.
pub fn unknown_position(name: &str) -> (r: String)
    ensures
        r@ == "no position '"@ + name@ + "' — add one with `drip strategy add`"@,
{
    join3("no position '", name, "' — add one with `drip strategy add`")
}

/// The complaint that a broker places no orders.
pub fn cannot_place(broker: &str) -> (r: String)
    ensures
        r@ == "broker '"@ + broker@ + "' does not support order placement (KIS only in M2.1)"@,
{
    join3(
        "broker '",
        broker,
        "' does not support order placement (KIS only in M2.1)",
    )
}

/// Sides, kinds and outcomes have the literal words, and no two outcomes share one.
pub proof fn law_words_tell_apart(a: TickStatus, b: TickStatus)
    ensures
        side_word(Side::Buy) == "Buy"@,
        side_word(Side::Sell) == "Sell"@,
        kind_word(OrderKind::LimitOnClose) == "LimitOnClose"@,
        kind_word(OrderKind::Limit) == "Limit"@,
        kind_word(OrderKind::Market) == "Market"@,
        status_word(TickStatus::Placed) == "PLACED"@,
        status_word(TickStatus::SkippedIdempotent) == "skip(dup)"@,
        status_word(TickStatus::WouldPlace) == "would-place"@,
        status_word(TickStatus::Failed) == "FAILED"@,
        a != b ==> status_word(a) != status_word(b),
        bool_word(true) == "true"@,
        bool_word(false) == "false"@,
{
    reveal_strlit("PLACED");
    reveal_strlit("skip(dup)");
    reveal_strlit("would-place");
    reveal_strlit("FAILED");
    assert("PLACED"@[0] == 'P');
    assert("skip(dup)"@[0] == 's');
    assert("would-place"@[0] == 'w');
    assert("FAILED"@[0] == 'F');
}

/// An order reads side, shares, kind, limit and tag; without a limit it is at the market.
pub proof fn law_orders_read_side_shares_kind_limit_and_tag(i: IntentView)
    ensures
        ({
            let side = if i.side == Side::Buy {
                "Buy"@
            } else {
                "Sell"@
            };
            let kind = if i.kind == OrderKind::LimitOnClose {
                "LimitOnClose"@
            } else if i.kind == OrderKind::Limit {
                "Limit"@
            } else {
                "Market"@
            };
            let front = side + " "@ + digits(i.shares as nat) + " "@ + kind + " @ "@;
            &&& i.limit is None ==> intent_words(i) == front + "MKT"@ + " ["@ + i.tag + "]"@
            &&& i.limit is Some ==> intent_words(i) == front + decimal_text(i.limit->0) + " ["@
                + i.tag + "]"@
        }),
{
}

/// An order of a tick is listed with its outcome, its identifier where it has one, and its error
/// where it has one.
pub proof fn law_outcomes_are_listed_in_full(o: TickOrderView)
    ensures
        ({
            let base = "  ["@ + status_word(o.status) + "] "@ + intent_words(o.intent);
            &&& o.order_id is None && o.error is None ==> order_line(o) == base
            &&& o.order_id is Some && o.error is None ==> order_line(o) == base + " id="@
                + o.order_id->0
            &&& o.order_id is None && o.error is Some ==> order_line(o) == base + " error="@
                + o.error->0
            &&& o.order_id is Some && o.error is Some ==> order_line(o) == base + " id="@
                + o.order_id->0 + " error="@ + o.error->0
        }),
{
}

/// A tick tells what it looked at first. Then come what was reconciled, where that is not
/// nothing, and the note, where there is one; then each order once and in order, or that there
/// is none; and last, where nothing was placed, that it was a preview.
pub proof fn law_a_tick_tells_every_order(
    name: Seq<char>,
    ticker: Seq<char>,
    price: Dec,
    t: Dec,
    executed: bool,
    reconciled_fills: nat,
    orders: Seq<TickOrderView>,
    note: Option<Seq<char>>,
)
    ensures
        ({
            let lines = tick_lines(
                name,
                ticker,
                price,
                t,
                executed,
                reconciled_fills,
                orders,
                note,
            );
            let folded: int = if reconciled_fills > 0 {
                1
            } else {
                0
            };
            let noted: int = if note is Some {
                1
            } else {
                0
            };
            let listed: int = if orders.len() == 0 {
                1
            } else {
                orders.len() as int
            };
            let reminded: int = if executed {
                0
            } else {
                1
            };
            &&& lines.len() == 1 + folded + noted + listed + reminded
            &&& lines[0] == "Tick "@ + name + ": "@ + ticker + " @ "@ + decimal_text(price)
                + " (T="@ + decimal_text(t) + ")"@
            &&& reconciled_fills > 0 ==> lines[1] == "  reconciled "@ + digits(reconciled_fills)
                + " fill(s) before deciding"@
            &&& note is Some ==> lines[1 + folded] == "NOTE: "@ + note->0
            &&& orders.len() == 0 ==> lines[1 + folded + noted] == "  (no orders today)"@
            &&& forall|i: int|
                0 <= i < orders.len() ==> lines[1 + folded + noted + i] == order_line(
                    #[trigger] orders[i],
                )
            &&& !executed ==> lines.last()
                == "NOTE: preview only — pass --execute to place (KIS 모의 needs --execute; real needs --execute --live)."@
        }),
{
}

/// A reconcile tells what it applied and the counter before and after; then the mark, where
/// there is one; and then the note, where there is one.
pub proof fn law_a_reconcile_tells_what_it_applied(
    name: Seq<char>,
    ticker: Seq<char>,
    applied: nat,
    cycles: nat,
    t_before: Dec,
    t_after: Dec,
    through: Option<Civil>,
    note: Option<Seq<char>>,
)
    ensures
        ({
            let lines = reconcile_lines(
                name,
                ticker,
                applied,
                cycles,
                t_before,
                t_after,
                through,
                note,
            );
            let marked: int = if through is Some {
                1
            } else {
                0
            };
            let noted: int = if note is Some {
                1
            } else {
                0
            };
            &&& lines.len() == 1 + marked + noted
            &&& lines[0] == "Reconcile "@ + name + ": "@ + ticker + " — applied "@ + digits(applied)
                + " fill(s), "@ + digits(cycles) + " cycle(s); T "@ + decimal_text(t_before)
                + " -> "@ + decimal_text(t_after)
            &&& through is Some ==> lines[1] == "  reconciled through "@ + date_text(through->0)
            &&& note is Some ==> lines[1 + marked] == "NOTE: "@ + note->0
        }),
{
}

/// A dry run tells the quote, the counter and the average, then each order once and in order, or
/// that there is none, and that none was placed.
pub proof fn law_a_dry_run_tells_every_order(
    name: Seq<char>,
    ticker: Seq<char>,
    price: Dec,
    t: Dec,
    avg_price: Option<Dec>,
    intents: Seq<IntentView>,
)
    ensures
        ({
            let lines = dry_run_lines(name, ticker, price, t, avg_price, intents);
            let avg = if avg_price is Some {
                decimal_text(avg_price->0)
            } else {
                "-"@
            };
            &&& lines.len() == if intents.len() == 0 {
                3nat
            } else {
                2 + intents.len()
            }
            &&& lines[0] == "Dry-run "@ + name + ": "@ + ticker + " @ "@ + decimal_text(price)
                + " (T="@ + decimal_text(t) + ", avg="@ + avg + ")"@
            &&& intents.len() == 0 ==> lines[1] == "  (no orders today)"@
            &&& forall|i: int|
                0 <= i < intents.len() ==> lines[1 + i] == "  "@ + intent_words(
                    #[trigger] intents[i],
                )
            &&& lines.last() == "NOTE: dry-run only — no orders were placed."@
        }),
{
}

/// An account tells its broker and abilities, then each holding once and in order, or that there
/// is none, and last its balance in cents, or that it is unavailable.
pub proof fn law_an_account_tells_every_holding(
    broker: BrokerId,
    c: Capabilities,
    holdings: Seq<HoldingView>,
    balance: Option<Dec>,
)
    ensures
        ({
            let lines = account_lines(broker, c, holdings, balance);
            &&& lines.len() == if holdings.len() == 0 {
                3nat
            } else {
                2 + holdings.len()
            }
            &&& lines[0] == "Broker "@ + broker_name(broker) + " (realtime="@ + bool_word(
                c.realtime_quotes,
            ) + ", paper="@ + bool_word(c.paper_account) + ", orders="@ + bool_word(
                c.order_placement,
            ) + ", overseas="@ + bool_word(c.overseas) + ")"@
            &&& holdings.len() == 0 ==> lines[1] == "No holdings."@
            &&& forall|i: int|
                0 <= i < holdings.len() ==> lines[1 + i] == "  "@ + (#[trigger] holdings[i]).ticker
                    + " qty="@ + digits(holdings[i].shares as nat) + " avg="@ + if holdings[i].avg_price
                    is Some {
                    decimal_text(holdings[i].avg_price->0)
                } else {
                    "-"@
                }
            &&& balance is Some ==> lines.last() == "Cash/eval: "@ + money_text(balance->0)
            &&& balance is None ==> lines.last() == "Cash/eval: unavailable"@
        }),
{
}

/// Real money is marked as such exactly where the account is registered for it; an account that
/// is not registered is marked as neither real nor paper.
pub proof fn law_real_money_is_marked(config: ConfigView, account: Seq<char>)
    ensures
        ({
            let mark = environment_mark(registered_env(config, account));
            let is_real = config.account(account) is Some && config.account(account)->0.env == "real"@;
            &&& is_real <==> mark == "[REAL]"@
            &&& config.account(account) is Some && !is_real <==> mark == "[paper]"@
            &&& config.account(account) is None <==> mark == "[unregistered]"@
        }),
{
    reveal_strlit("[REAL]");
    reveal_strlit("[paper]");
    reveal_strlit("[unregistered]");
    assert("[REAL]"@[1] == 'R');
    assert("[paper]"@[1] == 'p');
    assert("[unregistered]"@[1] == 'u');
}

/// The line of a position names its account with the mark of its environment, its broker and its
/// ticker, and tells each figure under its own label.
pub proof fn law_a_status_tells_each_figure(p: PositionView, t: Dec, env: Option<Seq<char>>)
    ensures
        ({
            let avg = if p.avg_price is Some {
                decimal_text(p.avg_price->0)
            } else {
                "-"@
            };
            status_line(p, t, env) == p.account + " "@ + environment_mark(env) + " "@ + broker_name(
                p.broker,
            ) + " "@ + p.ticker + " T="@ + padded_right(decimal_text(t), 5) + " avg="@
                + padded_left(avg, 8) + " shares="@ + digits(p.shares as nat) + " cum="@
                + money_text(p.cum_spent) + " realized="@ + money_text(p.realized_pnl) + " cycle="@
                + digits(p.cycle_index as nat)
        }),
{
}

/// Fills are counted in the first line, and each is told once and in order.
pub proof fn law_fills_are_told_one_by_one(
    name: Seq<char>,
    ticker: Seq<char>,
    since: Civil,
    fills: Seq<FillView>,
)
    ensures
        ({
            let lines = fill_lines(name, ticker, since, fills);
            &&& lines.len() == 1 + fills.len()
            &&& lines[0] == "Fills "@ + name + " ("@ + ticker + ") since "@ + date_text(since)
                + ": "@ + digits(fills.len()) + " fill(s)"@
            &&& forall|i: int|
                0 <= i < fills.len() ==> lines[1 + i] == "  "@ + date_text((#[trigger] fills[i]).at)
                    + " "@ + (if fills[i].side == Side::Buy {
                    "Buy"@
                } else {
                    "Sell"@
                }) + " "@ + digits(fills[i].shares as nat) + " @ "@ + decimal_text(fills[i].price)
        }),
{
}

/// A backtest tells its span, and each figure under its own label: amounts in cents, and the days
/// traded out of all days.
pub proof fn law_a_backtest_tells_each_figure(
    ticker: Seq<char>,
    start: Civil,
    end: Civil,
    seed: Dec,
    equity: Dec,
    pnl: Dec,
    cycles: nat,
    trading_days: nat,
    total_days: nat,
)
    ensures
        ({
            let lines = report_lines(
                ticker,
                start,
                end,
                seed,
                equity,
                pnl,
                cycles,
                trading_days,
                total_days,
            );
            &&& lines.len() == 6
            &&& lines[0] == "Backtest "@ + ticker + " "@ + date_text(start) + " .. "@ + date_text(
                end,
            )
            &&& lines[1] == "  seed           "@ + money_text(seed)
            &&& lines[2] == "  final equity   "@ + money_text(equity)
            &&& lines[3] == "  realized P&L   "@ + money_text(pnl)
            &&& lines[4] == "  cycles         "@ + digits(cycles)
            &&& lines[5] == "  trading days   "@ + digits(trading_days) + "/"@ + digits(total_days)
        }),
{
}

/// A quote tells broker, ticker, price and day.
pub proof fn law_a_quote_tells_price_and_day(
    broker: Seq<char>,
    ticker: Seq<char>,
    price: Dec,
    as_of: Civil,
)
    ensures
        quote_line(broker, ticker, price, as_of) == broker + seq![' '] + ticker + " = "@
            + decimal_text(price) + " (as of "@ + date_text(as_of) + seq![')'],
{
    reveal_strlit(" ");
    reveal_strlit(")");
    assert(" "@ =~= seq![' ']);
    assert(")"@ =~= seq![')']);
}

} // verus!

use drip::config::{AccountConfig, AppConfig};
use drip::date::Date;
use drip::decimal::Decimal;
use drip::error::DomainError;
use drip::infinite_buying::{InfiniteBuying, InfiniteBuyingConfig};
use drip::market::{AccountId, Bar, BrokerId, OrderId, Quote, Side, Ticker};
use drip::money::{Money, Price, Shares};
use drip::order::OrderIntent;
use drip::paper::PaperBroker;
use drip::ports::{BrokerInfo, Capabilities};
use drip::position::{Fill, Position};
use drip::report::{print_account, print_dry_run, print_reconcile, print_tick, status_of};
use drip::tick::{begin_tick, AfterScan};
use drip::usecases::{
    account_snapshot, decide_on, dry_run, earliest_reconcile_window, effective_state,
    place_orders, reconcile_into, require_consent, scan_start, ReconcileView, TickAction,
    TickEvent, TickRun, TickStatus, TickView,
};

fn dec(s: &str) -> Decimal {
    Decimal::parse(s).unwrap()
}

fn price(s: &str) -> Price {
    Price::new(dec(s)).unwrap()
}

fn tqqq() -> Ticker {
    Ticker::new("TQQQ")
}

fn jun(d: u8) -> Date {
    Date::from_calendar_date(2026, 6, d).unwrap()
}

fn bar(close: &str) -> Bar {
    Bar {
        date: Date::from_calendar_date(2026, 1, 15).unwrap(),
        open: price("100"),
        high: price("120"),
        low: price("90"),
        close: price(close),
    }
}

fn template(seed: &str) -> Position {
    Position::new(
        AccountId::new("paper"),
        BrokerId::Paper,
        tqqq(),
        Money::new(dec(seed)),
        40,
    )
}

fn strategy() -> InfiniteBuying {
    InfiniteBuying::new(InfiniteBuyingConfig::default())
}

fn paper() -> PaperBroker {
    let mut pb = PaperBroker::new(Money::new(dec("0")));
    pb.set_market(tqqq(), bar("100"));
    pb
}

fn buy_fill(shares: u32, at_price: &str, at: Date) -> Fill {
    Fill {
        side: Side::Buy,
        shares: Shares::new(shares),
        price: price(at_price),
        at,
    }
}

// A ledger and a journal in memory.
struct Store {
    saved: Option<Position>,
    reserved: Vec<String>,
    recorded: Vec<(String, String)>,
}

impl Store {
    fn new() -> Store {
        Store {
            saved: None,
            reserved: Vec::new(),
            recorded: Vec::new(),
        }
    }
}

fn carry_out(mut run: TickRun, pb: &mut PaperBroker, store: &mut Store) -> TickView {
    loop {
        let event = match run.action() {
            TickAction::Finish => return run.into_view(),
            TickAction::Reserve(key) => {
                let fresh = !store.reserved.contains(&key);
                if fresh {
                    store.reserved.push(key);
                }
                TickEvent::Reserved(Ok(fresh))
            }
            TickAction::Place(intent) => TickEvent::Placed(pb.place(&tqqq(), &intent)),
            TickAction::Record(key, id) => {
                store.recorded.push((key, id.as_str().to_string()));
                TickEvent::Recorded(Ok(()))
            }
        };
        run = run.advance(event).unwrap();
    }
}

fn tick(
    pb: &mut PaperBroker,
    store: &mut Store,
    seed: &str,
    fills: Vec<Fill>,
    capabilities: Capabilities,
    execute: bool,
    allow_real: bool,
) -> Result<TickView, DomainError> {
    let setup = begin_tick(execute, allow_real, capabilities, template(seed), jun(21))?;
    let scan = setup.loaded(Ok(store.saved.clone()))?;
    let since = scan.since();
    let recent = fills.into_iter().filter(|f| !f.at.is_before(&since)).collect();
    let ready = match scan.scanned(Ok(recent)).unwrap()? {
        AfterScan::Save(ready) => {
            store.saved = Some(ready.state().clone());
            ready.saved(Ok(()))?
        }
        AfterScan::Quote(ready) => ready,
    };
    let run = ready.quoted(&strategy(), pb.quote(&tqqq())).unwrap()?;
    Ok(carry_out(run, pb, store))
}

#[test]
fn account_snapshot_reads_paper_holdings() {
    let mut pb = PaperBroker::new(Money::new(dec("10000")));
    pb.set_market(tqqq(), bar("100"));
    pb.place(
        &tqqq(),
        &OrderIntent::loc(Side::Buy, Shares::new(5), price("100"), "buy"),
    )
    .unwrap();

    let view = account_snapshot(pb.id(), pb.capabilities(), Ok(pb.holdings()), Ok(pb.balance()))
        .unwrap();
    assert_eq!(view.broker, BrokerId::Paper);
    assert_eq!(view.holdings.len(), 1);
    assert_eq!(view.balance, Some(Money::new(dec("9500"))));
    assert_eq!(
        print_account(&view),
        vec![
            "Broker paper (realtime=false, paper=true, orders=true, overseas=true)",
            "  TQQQ qty=5 avg=100",
            "Cash/eval: 9500",
        ]
    );
}

#[test]
fn dry_run_on_flat_state_seeds_buys() {
    let pb = paper();
    let state = effective_state(None, template("40000"));
    let view = dry_run(&strategy(), &state, &pb.quote(&tqqq()).unwrap()).unwrap();

    assert_eq!(view.t, dec("0"));
    assert!(view.intents.iter().all(|o| o.side == Side::Buy));
    assert_eq!(view.intents.len(), 2);
}

#[test]
fn place_orders_executes_then_is_idempotent_same_day() {
    let mut pb = paper();
    let mut store = Store::new();
    let caps = pb.capabilities();

    let view = tick(&mut pb, &mut store, "40000", vec![], caps, true, false).unwrap();
    assert!(view.executed);
    assert!(view.note.is_some()); // paper degrades LOC -> limit, surfaced as a note
    assert_eq!(view.orders.len(), 2); // first-day loc_low + loc_high
    assert!(view
        .orders
        .iter()
        .all(|o| matches!(o.status, TickStatus::Placed)));
    assert_eq!(store.recorded.len(), 2);
    assert_eq!(store.reserved[0], "paper:TQQQ:2026-06-21:loc_low");

    // Re-running the same day reserves nothing new — every leg is skipped.
    let again = tick(&mut pb, &mut store, "40000", vec![], caps, true, false).unwrap();
    assert!(again
        .orders
        .iter()
        .all(|o| matches!(o.status, TickStatus::SkippedIdempotent)));
}

#[test]
fn place_orders_preview_reserves_nothing() {
    let mut pb = paper();
    let mut store = Store::new();
    let caps = pb.capabilities();
    let view = tick(&mut pb, &mut store, "40000", vec![], caps, false, false).unwrap();
    assert!(!view.executed);
    assert!(view
        .orders
        .iter()
        .all(|o| matches!(o.status, TickStatus::WouldPlace)));
    assert!(store.reserved.is_empty()); // preview touches no journal
}

#[test]
fn place_orders_refuses_real_account_without_consent() {
    let mut pb = paper();
    let mut store = Store::new();
    // A non-paper, order-capable gateway.
    let caps = Capabilities {
        realtime_quotes: false,
        paper_account: false,
        order_placement: true,
        overseas: true,
    };

    // Executing against a real (non-paper) account without consent is refused outright.
    let denied = tick(&mut pb, &mut store, "40000", vec![], caps, true, false);
    assert!(matches!(denied, Err(DomainError::Risk(_))));

    // With explicit consent the same tick proceeds and places.
    let allowed = tick(&mut pb, &mut store, "40000", vec![], caps, true, true).unwrap();
    assert!(allowed
        .orders
        .iter()
        .all(|o| matches!(o.status, TickStatus::Placed)));
    assert!(allowed.note.is_none());
}

fn reconcile(store: &mut Store, fills: &[Fill]) -> ReconcileView {
    let state = effective_state(store.saved.clone(), template("32000"));
    let since = scan_start(&state, jun(21));
    let recent = fills.iter().filter(|f| !f.at.is_before(&since)).cloned().collect();
    let (state, view, advanced) = reconcile_into(state, Ok(recent), jun(21)).unwrap().unwrap();
    if advanced {
        store.saved = Some(state);
    }
    view
}

#[test]
fn reconcile_applies_fills_persists_and_is_idempotent() {
    let mut store = Store::new();
    store.saved = Some(template("32000"));
    let fills = vec![buy_fill(8, "100", jun(18)), buy_fill(8, "100", jun(19))];

    let view = reconcile(&mut store, &fills);
    assert_eq!(view.applied_fills, 2);
    assert_eq!(view.through, Some(jun(19)));
    assert!(view.t_after > view.t_before);
    assert!(view.note.is_none());

    // Persisted: a reloaded position reflects the fills and the watermark.
    let saved = store.saved.clone().unwrap();
    assert_eq!(saved.shares, Shares::new(16));
    assert_eq!(saved.reconciled_through, Some(jun(19)));

    // Idempotent: a second run applies nothing new.
    let again = reconcile(&mut store, &fills);
    assert_eq!(again.applied_fills, 0);
    assert_eq!(
        print_reconcile("t", &view),
        vec![
            "Reconcile t: TQQQ — applied 2 fill(s), 0 cycle(s); T 0 -> 2",
            "  reconciled through 2026-06-19",
        ]
    );
}

#[test]
fn reconcile_notes_and_skips_when_history_unsupported() {
    let (_, view, advanced) = reconcile_into(
        template("32000"),
        Err(DomainError::Unsupported("no history".into())),
        jun(21),
    )
    .unwrap()
    .unwrap();
    assert_eq!(view.applied_fills, 0);
    assert_eq!(view.note.as_deref(), Some("fills not reconciled: no history"));
    assert!(!advanced);
}

#[test]
fn place_orders_reconciles_in_memory_for_preview_persists_on_execute() {
    let mut pb = paper();
    let mut store = Store::new();
    store.saved = Some(template("32000"));
    let caps = pb.capabilities();
    // A completed-day buy the tick folds in before deciding today's tranche.
    let fills = vec![buy_fill(8, "100", jun(18))];

    // Preview: the reconcile shows in the view but is not written.
    let preview = tick(&mut pb, &mut store, "32000", fills.clone(), caps, false, false).unwrap();
    assert_eq!(preview.reconciled_fills, 1);
    assert_eq!(preview.t, dec("1")); // 8 * 100 = 800 against an 800 budget -> T = 1.0
    let after_preview = store.saved.clone().unwrap();
    assert!(after_preview.is_flat()); // preview left the stored ledger untouched
    assert_eq!(after_preview.reconciled_through, None);

    // Execute: the same reconcile is now persisted.
    let executed = tick(&mut pb, &mut store, "32000", fills, caps, true, false).unwrap();
    assert_eq!(executed.reconciled_fills, 1);
    let after_execute = store.saved.clone().unwrap();
    assert_eq!(after_execute.shares, Shares::new(8)); // execute persisted the advance
    assert_eq!(after_execute.reconciled_through, Some(jun(18)));
}

fn first_day_run(execute: bool) -> TickRun {
    let quote = paper().quote(&tqqq()).unwrap();
    let permit = require_consent(execute, false, paper().capabilities()).unwrap();
    place_orders(&strategy(), &template("40000"), &quote, permit, 0, None, jun(21))
        .unwrap()
        .unwrap()
}

#[test]
fn a_failed_order_is_noted_and_the_next_one_goes_on() {
    let run = first_day_run(true);
    let run = run.advance(TickEvent::Reserved(Ok(true))).unwrap();
    assert!(matches!(run.action(), TickAction::Place(_)));
    let run = run
        .advance(TickEvent::Placed(Err(DomainError::Broker("down".into()))))
        .unwrap();
    assert!(matches!(run.action(), TickAction::Reserve(_)));
    let run = run.advance(TickEvent::Reserved(Ok(false))).unwrap();
    assert!(matches!(run.action(), TickAction::Finish));
    let view = run.into_view();
    assert_eq!(view.orders[0].status, TickStatus::Failed);
    assert_eq!(view.orders[0].error.as_deref(), Some("broker error: down"));
    assert_eq!(view.orders[1].status, TickStatus::SkippedIdempotent);
    let lines = print_tick("x", &view);
    assert_eq!(lines[0], "Tick x: TQQQ @ 100 (T=0)");
    assert_eq!(
        lines[2],
        "  [FAILED] Buy 5 LimitOnClose @ 100 [loc_low] error=broker error: down"
    );
}

#[test]
fn an_order_whose_record_fails_is_still_placed() {
    let run = first_day_run(true);
    let run = run.advance(TickEvent::Reserved(Ok(true))).unwrap();
    let run = run
        .advance(TickEvent::Placed(Ok(OrderId::new("7"))))
        .unwrap();
    let run = run
        .advance(TickEvent::Recorded(Err(DomainError::Storage("full".into()))))
        .unwrap();
    let run = run.advance(TickEvent::Reserved(Ok(false))).unwrap();
    let view = run.into_view();
    assert_eq!(view.orders[0].status, TickStatus::Placed);
    assert_eq!(view.orders[0].order_id.as_deref(), Some("7"));
    assert_eq!(
        view.orders[0].error.as_deref(),
        Some("order is live but journal record failed: storage error: full")
    );
}

#[test]
fn a_journal_that_fails_ends_the_tick() {
    let run = first_day_run(true);
    let e = run.advance(TickEvent::Reserved(Err(DomainError::Storage("gone".into()))));
    assert!(matches!(e, Err(DomainError::Storage(_))));
}

#[test]
fn only_the_gate_hands_out_permits() {
    let real = Capabilities {
        realtime_quotes: false,
        paper_account: false,
        order_placement: true,
        overseas: true,
    };
    assert!(matches!(require_consent(true, false, real), Err(DomainError::Risk(_))));
    assert!(require_consent(true, true, real).unwrap().executes());
    assert!(!require_consent(false, false, real).unwrap().executes());
    assert!(require_consent(true, false, paper().capabilities()).unwrap().executes());
}

#[test]
fn an_order_that_may_have_gone_out_is_not_sent_again() {
    // The first run stops between the reservation and the broker's answer.
    let mut pb = paper();
    let mut store = Store::new();
    let run = first_day_run(true);
    let key = match run.action() {
        TickAction::Reserve(key) => key,
        _ => panic!("the key is reserved first"),
    };
    store.reserved.push(key.clone());
    let run = run.advance(TickEvent::Reserved(Ok(true))).unwrap();
    assert!(matches!(run.action(), TickAction::Place(_)));

    let view = carry_out(first_day_run(true), &mut pb, &mut store);
    assert_eq!(view.orders[0].status, TickStatus::SkippedIdempotent);
    assert_eq!(view.orders[1].status, TickStatus::Placed);
    assert!(store.recorded.iter().all(|(recorded, _)| *recorded != key));
}

#[test]
fn a_preview_has_nothing_to_do() {
    let run = first_day_run(false);
    assert!(matches!(run.action(), TickAction::Finish));
    let lines = print_tick("x", &run.into_view());
    assert!(lines.last().unwrap().starts_with("NOTE: preview only"));
}

#[test]
fn a_tick_that_cannot_be_priced_or_loaded_fails() {
    let caps = paper().capabilities();
    let setup = begin_tick(true, false, caps, template("40000"), jun(21)).unwrap();
    assert!(matches!(
        setup.loaded(Err(DomainError::Storage("x".into()))),
        Err(DomainError::Storage(_))
    ));
    let setup = begin_tick(true, false, caps, template("40000"), jun(21)).unwrap();
    let scan = setup.loaded(Ok(None)).unwrap();
    assert_eq!(scan.since(), earliest_reconcile_window(jun(21)));
    assert!(matches!(
        scan.scanned(Err(DomainError::Broker("x".into()))),
        Some(Err(DomainError::Broker(_)))
    ));
}

#[test]
fn one_bad_leg_refuses_the_whole_tick() {
    // A take-profit at ten times the average is out of bounds; the other legs are fine.
    let mut config = InfiniteBuyingConfig::default();
    config.take_profit_pct = dec("900");
    let strategy = InfiniteBuying::new(config);
    let mut state = template("40000");
    state.shares = Shares::new(10);
    state.avg_price = Price::new(dec("100"));
    state.cum_spent = Money::new(dec("1000"));
    let quote = Quote {
        ticker: tqqq(),
        price: price("100"),
        as_of: jun(21),
    };
    let decided = decide_on(&strategy, &state, &quote).unwrap();
    assert!(decided.len() > 1);
    let permit = require_consent(true, false, paper().capabilities()).unwrap();
    let refused = place_orders(&strategy, &state, &quote, permit, 0, None, jun(21)).unwrap();
    assert!(matches!(refused, Err(DomainError::Risk(_))));
}

#[test]
fn the_lookback_is_ninety_days() {
    assert_eq!(
        earliest_reconcile_window(jun(21)),
        Date::from_calendar_date(2026, 3, 23).unwrap()
    );
    let mut state = template("1");
    state.reconciled_through = Some(jun(19));
    assert_eq!(scan_start(&state, jun(21)), jun(19));
}

#[test]
fn a_position_prints_on_one_line() {
    let mut p = template("32000");
    p.shares = Shares::new(8);
    p.avg_price = Price::new(dec("100"));
    p.cum_spent = Money::new(dec("850"));
    let mut config = AppConfig::default();
    assert_eq!(
        status_of(&p, &config).unwrap(),
        "paper [unregistered] paper TQQQ T=1.10  avg=     100 shares=8 cum=850 realized=0 cycle=0"
    );
    for (env, mark) in [("real", "[REAL]"), ("paper", "[paper]")] {
        config.upsert_account(AccountConfig {
            name: "paper".into(),
            env: env.into(),
        });
        assert!(status_of(&p, &config).unwrap().starts_with(&format!("paper {mark} paper")));
    }
}

#[test]
fn a_dry_run_prints_its_orders() {
    let pb = paper();
    let view = dry_run(&strategy(), &template("40000"), &pb.quote(&tqqq()).unwrap()).unwrap();
    assert_eq!(
        print_dry_run("x", &view),
        vec![
            "Dry-run x: TQQQ @ 100 (T=0, avg=-)",
            "  Buy 5 LimitOnClose @ 100 [loc_low]",
            "  Buy 4 LimitOnClose @ 115.00 [loc_high]",
            "NOTE: dry-run only — no orders were placed.",
        ]
    );
}

#[test]
fn errors_read_as_sentences() {
    let cases = [
        (DomainError::MarketData("x".into()), "market data unavailable: x"),
        (DomainError::Strategy("x".into()), "strategy error: x"),
        (DomainError::Broker("x".into()), "broker error: x"),
        (
            DomainError::Unsupported("x".into()),
            "capability not supported by this broker: x",
        ),
        (DomainError::Storage("x".into()), "storage error: x"),
        (DomainError::Secret("x".into()), "secret store error: x"),
        (DomainError::Config("x".into()), "configuration error: x"),
        (DomainError::Risk("x".into()), "risk check failed: x"),
    ];
    for (error, text) in cases {
        assert_eq!(error.to_text(), text);
    }
}

use drip::backtest::{try_equity_value, Backtest};
use drip::date::Date;
use drip::decimal::Decimal;
use drip::error::DomainError;
use drip::infinite_buying::{InfiniteBuying, InfiniteBuyingConfig};
use drip::market::{AccountId, Bar, BrokerId, Ticker};
use drip::money::{Money, Price, Shares};
use drip::position::Position;

fn dec(s: &str) -> Decimal {
    Decimal::parse(s).unwrap()
}

fn price(s: &str) -> Price {
    Price::new(dec(s)).unwrap()
}

fn jan(d: u8) -> Date {
    Date::from_calendar_date(2026, 1, d).unwrap()
}

fn bar(d: Date, o: &str, h: &str, l: &str, c: &str) -> Bar {
    Bar {
        date: d,
        open: price(o),
        high: price(h),
        low: price(l),
        close: price(c),
    }
}

fn position(seed: &str) -> Position {
    Position::new(
        AccountId::new("paper"),
        BrokerId::Paper,
        Ticker::new("TQQQ"),
        Money::new(dec(seed)),
        40,
    )
}

fn strat() -> InfiniteBuying {
    InfiniteBuying::new(InfiniteBuyingConfig::default())
}

#[test]
fn completes_one_cycle_and_realizes_profit() {
    // Day 1 seeds 9 shares at 100; day 2 closes at +15% so the whole holding sells out.
    let bars = vec![
        bar(jan(2), "100", "101", "99", "100"),
        bar(jan(9), "110", "116", "109", "115"),
    ];
    let report = Backtest::run(&strat(), position("40000"), &bars).unwrap();
    assert_eq!(report.cycles_completed, 1);
    assert_eq!(report.realized_pnl, Money::new(dec("135")));
    assert_eq!(report.final_equity, Money::new(dec("40135")));
    assert_eq!(report.total_days, 2);
    assert_eq!(report.trading_days, 2);
    assert_eq!(report.equity_curve.len(), 2);
}

#[test]
fn accumulates_and_marks_to_market_without_sellout() {
    // Day 1 buys 9 @100; day 2 dips to 95 so it averages down to 18 @97.5, no sell-out.
    let bars = vec![
        bar(jan(2), "100", "101", "99", "100"),
        bar(jan(5), "96", "97", "94", "95"),
    ];
    let report = Backtest::run(&strat(), position("40000"), &bars).unwrap();
    assert_eq!(report.cycles_completed, 0);
    // unrealized at 95 vs avg 97.5 over 18 shares = -45 -> equity 39955
    assert_eq!(report.final_equity, Money::new(dec("39955")));
    // The curve falls from its peak: a drawdown above zero.
    assert!(report.equity_curve[1].1 < report.equity_curve[0].1);
}

#[test]
fn empty_bars_is_an_error() {
    assert!(matches!(
        Backtest::run(&strat(), position("40000"), &[]),
        Err(DomainError::MarketData(_))
    ));
}

#[test]
fn the_curve_has_one_point_per_bar_in_order() {
    let bars = vec![
        bar(jan(2), "100", "101", "99", "100"),
        bar(jan(5), "96", "97", "94", "95"),
        bar(jan(6), "96", "97", "94", "96"),
    ];
    let report = Backtest::run(&strat(), position("40000"), &bars).unwrap();
    let days: Vec<Date> = report.equity_curve.iter().map(|p| p.0).collect();
    assert_eq!(days, vec![jan(2), jan(5), jan(6)]);
    assert_eq!(report.start, jan(2));
    assert_eq!(report.end, jan(6));
    assert_eq!(report.initial_seed, Money::new(dec("40000")));
}

#[test]
fn a_replay_that_leaves_the_range_is_refused() {
    let huge = "79228162514264337593543950335";
    let bars = vec![bar(jan(2), huge, huge, huge, huge)];
    assert!(Backtest::try_run(&strat(), position(huge), &bars).is_none());
}

#[test]
fn equity_is_seed_plus_realized_plus_open_profit() {
    let mut p = position("1000");
    p.shares = Shares::new(10);
    p.avg_price = Some(price("50"));
    p.realized_pnl = Money::new(dec("25"));
    assert_eq!(
        try_equity_value(&p, price("53")),
        Some(Money::new(dec("1055")))
    );
}

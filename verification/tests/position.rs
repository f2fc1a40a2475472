use drip::date::Date;
use drip::decimal::Decimal;
use drip::market::{AccountId, BrokerId, Side, Ticker};
use drip::money::{Money, Price, Shares};
use drip::position::{Fill, Holding, Position};

fn dec(s: &str) -> Decimal {
    Decimal::parse(s).unwrap()
}

fn jan(d: u8) -> Date {
    Date::from_calendar_date(2026, 1, d).unwrap()
}

fn tqqq() -> Position {
    Position::new(
        AccountId::new("paper"),
        BrokerId::Paper,
        Ticker::new("TQQQ"),
        Money::new(dec("32000")),
        40,
    )
}

fn buy(shares: u32, price: &str, at: Date) -> Fill {
    Fill {
        side: Side::Buy,
        shares: Shares::new(shares),
        price: Price::new(dec(price)).unwrap(),
        at,
    }
}

fn sell(shares: u32, price: &str, at: Date) -> Fill {
    Fill {
        side: Side::Sell,
        shares: Shares::new(shares),
        price: Price::new(dec(price)).unwrap(),
        at,
    }
}

#[test]
fn daily_budget_is_seed_over_splits() {
    assert_eq!(tqqq().daily_budget(), Money::new(dec("800")));
}

#[test]
fn t_rounds_up_to_one_decimal() {
    let mut p = tqqq();
    // $850 spent against an $800 budget: 850/800 = 1.0625 -> round up 0.1 -> 1.1
    p.cum_spent = Money::new(dec("850"));
    assert_eq!(p.t(), dec("1.1"));
}

#[test]
fn t_is_zero_when_nothing_spent() {
    assert_eq!(tqqq().t(), dec("0"));
}

#[test]
fn buy_sets_weighted_average() {
    let mut p = tqqq();
    p.apply_fill(&buy(10, "100", jan(2)));
    p.apply_fill(&buy(5, "90", jan(3)));
    assert_eq!(p.shares, Shares::new(15));
    // (100*10 + 90*5) / 15 = 96.6667
    assert_eq!(p.avg_price.unwrap().value().round_dp(4), dec("96.6667"));
    assert_eq!(p.cum_spent, Money::new(dec("1450")));
}

#[test]
fn sell_realizes_pnl_and_flattens() {
    let mut p = tqqq();
    p.apply_fill(&buy(10, "100", jan(2)));
    // Sell all 10 at +15%: pnl = (115 - 100) * 10 = 150
    p.apply_fill(&sell(10, "115", jan(10)));
    assert!(p.is_flat());
    assert_eq!(p.avg_price, None);
    assert_eq!(p.realized_pnl, Money::new(dec("150")));
}

#[test]
fn start_new_cycle_resets_ladder_keeps_pnl() {
    let mut p = tqqq();
    p.realized_pnl = Money::new(dec("150"));
    p.cum_spent = Money::new(dec("800"));
    p.start_new_cycle(jan(11));
    assert_eq!(p.cycle_index, 1);
    assert_eq!(p.cum_spent, Money::zero());
    assert_eq!(p.realized_pnl, Money::new(dec("150")));
    assert_eq!(p.cycle_start, Some(jan(11)));
}

#[test]
fn apply_day_banks_cycle_on_same_day_sellout_then_rebuy() {
    let mut p = tqqq();
    p.apply_fill(&buy(10, "100", jan(2)));
    p.cycle_start = Some(jan(2));
    // Same day: sell the whole holding (cycle completes) then a buy re-enters.
    let fills = vec![sell(10, "115", jan(10)), buy(5, "90", jan(10))];
    assert!(p.apply_day(&fills, jan(10)));
    assert_eq!(p.cycle_index, 1); // the completed cycle was banked
    assert_eq!(p.realized_pnl, Money::new(dec("150"))); // (115 - 100) * 10
    assert_eq!(p.shares, Shares::new(5)); // rebuy belongs to the fresh cycle
    assert_eq!(p.cum_spent, Money::new(dec("450"))); // ladder reset, then 5 * 90
    assert_eq!(p.cycle_start, Some(jan(10))); // fresh cycle date
}

#[test]
fn reconcile_counts_cycles_and_moves_the_watermark() {
    let mut p = tqqq();
    let fills = vec![
        buy(8, "100", jan(5)),
        sell(8, "115", jan(6)),
        buy(4, "110", jan(7)),
    ];
    let outcome = p.reconcile(&fills, jan(9));
    assert_eq!(outcome.applied, 3);
    assert_eq!(outcome.cycles_completed, 1);
    assert_eq!(outcome.through, Some(jan(7)));
    assert_eq!(p.reconciled_through, Some(jan(7)));
    assert_eq!(p.shares, Shares::new(4));
    assert_eq!(p.cum_spent, Money::new(dec("440")));
    assert_eq!(p.realized_pnl, Money::new(dec("120")));
}

#[test]
fn reconcile_twice_applies_nothing_new() {
    let mut p = tqqq();
    let fills = vec![buy(8, "100", jan(5)), buy(8, "100", jan(6))];
    assert_eq!(p.reconcile(&fills, jan(9)).applied, 2);
    let again = p.reconcile(&fills, jan(9));
    assert_eq!(again.applied, 0);
    assert_eq!(p.shares, Shares::new(16));
}

#[test]
fn reconcile_leaves_todays_fills_for_later() {
    let mut p = tqqq();
    let fills = vec![buy(8, "100", jan(5)), buy(8, "100", jan(9))];
    let outcome = p.reconcile(&fills, jan(9));
    assert_eq!(outcome.applied, 1);
    assert_eq!(p.shares, Shares::new(8));
    assert_eq!(outcome.through, Some(jan(5)));
}

#[test]
fn an_average_stands_exactly_while_shares_are_held() {
    let mut p = tqqq();
    assert_eq!(p.avg_price, None);
    p.apply_fill(&buy(10, "100", jan(2)));
    assert_eq!(p.avg_price, Price::new(dec("100")));
    p.apply_fill(&sell(4, "120", jan(3)));
    assert_eq!(p.avg_price, Price::new(dec("100")));
    p.apply_fill(&sell(6, "120", jan(3)));
    assert_eq!(p.avg_price, None);
}

#[test]
fn fills_that_leave_the_range_are_refused() {
    let mut p = tqqq();
    let huge = buy(2, "79228162514264337593543950335", jan(2));
    assert!(!p.fill_fits(&huge));
    assert!(!p.try_apply_fill(&huge));
    assert!(p.is_flat());
    assert!(p.try_reconcile(&[huge], jan(9)).is_none());
}

#[test]
fn a_fill_is_worth_price_times_shares() {
    assert_eq!(buy(3, "10.5", jan(2)).value(), Money::new(dec("31.5")));
}

#[test]
fn a_holding_follows_its_fills() {
    let mut h = Holding::empty(Ticker::new("TQQQ"));
    h.apply_fill(&buy(10, "100", jan(2)));
    h.apply_fill(&buy(10, "110", jan(3)));
    assert_eq!(h.shares, Shares::new(20));
    assert_eq!(h.avg_price, Price::new(dec("105")));
    h.apply_fill(&sell(20, "120", jan(4)));
    assert!(h.shares.is_zero());
    assert_eq!(h.avg_price, None);
}

#[test]
fn a_fill_counts_once_on_whatever_day_it_is_reported_again() {
    let mut p = tqqq();
    let early = [buy(8, "100", jan(5)), buy(8, "100", jan(6))];
    assert_eq!(p.reconcile(&early, jan(6)).applied, 1);
    assert_eq!(p.reconcile(&early, jan(7)).applied, 1);
    assert_eq!(p.reconcile(&early, jan(20)).applied, 0);
    assert_eq!(p.shares, Shares::new(16));
    assert_eq!(p.reconciled_through, Some(jan(6)));
}

#[test]
fn the_smallest_prices_keep_an_average() {
    let tiny = "0.0000000000000000000000000001";
    let mut p = tqqq();
    p.apply_fill(&buy(3, tiny, jan(5)));
    p.apply_fill(&buy(4, tiny, jan(6)));
    assert_eq!(p.avg_price, Price::new(dec(tiny)));
    p.apply_fill(&buy(0, "100", jan(7)));
    assert_eq!(p.avg_price, Price::new(dec(tiny)));
    p.apply_fill(&sell(7, "1", jan(8)));
    assert_eq!(p.avg_price, None);
}

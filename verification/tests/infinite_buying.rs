use drip::date::Date;
use drip::decimal::Decimal;
use drip::infinite_buying::{InfiniteBuying, InfiniteBuyingConfig};
use drip::market::{AccountId, BrokerId, MarketSnapshot, Side, Ticker};
use drip::money::{Money, Price, Shares};
use drip::order::OrderIntent;
use drip::ports::{DailyContext, Strategy};
use drip::position::Position;
use drip::registry::{StrategyParams, StrategyRegistry};

fn dec(s: &str) -> Decimal {
    Decimal::parse(s).unwrap()
}

fn price(s: &str) -> Price {
    Price::new(dec(s)).unwrap()
}

fn strat() -> InfiniteBuying {
    InfiniteBuying::new(InfiniteBuyingConfig::default())
}

fn flat() -> Position {
    // budget = 32000 / 40 = 800
    Position::new(
        AccountId::new("paper"),
        BrokerId::Paper,
        Ticker::new("TQQQ"),
        Money::new(dec("32000")),
        40,
    )
}

fn holding(avg: &str, shares: u32, cum_spent: &str) -> Position {
    let mut p = flat();
    p.shares = Shares::new(shares);
    p.avg_price = Price::new(dec(avg));
    p.cum_spent = Money::new(dec(cum_spent));
    p.cycle_start = Date::from_calendar_date(2026, 1, 2);
    p
}

fn snapshot(at: &str) -> MarketSnapshot {
    MarketSnapshot {
        ticker: Ticker::new("TQQQ"),
        price: price(at),
        as_of: Date::from_calendar_date(2026, 1, 15).unwrap(),
    }
}

fn decide(strat: &InfiniteBuying, pos: &Position, market: &MarketSnapshot) -> Vec<OrderIntent> {
    strat.decide(&DailyContext {
        position: pos,
        market,
    })
}

fn by_tag<'a>(orders: &'a [OrderIntent], tag: &str) -> &'a OrderIntent {
    orders
        .iter()
        .find(|o| o.tag == tag)
        .unwrap_or_else(|| panic!("missing order tag {tag}"))
}

#[test]
fn first_day_seeds_two_buys_no_sells() {
    let orders = decide(&strat(), &flat(), &snapshot("100"));
    assert_eq!(orders.len(), 2);
    assert!(orders.iter().all(|o| o.side == Side::Buy));
    // budget 800, half 400. low @100 -> floor(400/100)=4 ; high @115 -> floor(400/115)=3
    let low = by_tag(&orders, "loc_low");
    assert_eq!(low.limit, Some(price("100")));
    assert_eq!(low.shares, Shares::new(4));
    let high = by_tag(&orders, "loc_high");
    assert_eq!(high.limit, Some(price("115")));
    assert_eq!(high.shares, Shares::new(3));
}

#[test]
fn first_half_places_two_buys_and_two_sells() {
    // cum_spent 2400 / 800 = 3.0 -> T = 3.0 (first half)
    let pos = holding("100", 24, "2400");
    let orders = decide(&strat(), &pos, &snapshot("105"));
    assert_eq!(orders.len(), 4);
    // sells: ¾=18 @115 ; ¼=6 @ var(T=3)=15-4.5=10.5% -> 110.5
    assert_eq!(by_tag(&orders, "tp_rest").shares, Shares::new(18));
    assert_eq!(by_tag(&orders, "tp_rest").limit, Some(price("115")));
    assert_eq!(by_tag(&orders, "tp_quarter").shares, Shares::new(6));
    assert_eq!(by_tag(&orders, "tp_quarter").limit, Some(price("110.5")));
    // buys: low @100 ; high @110.5
    assert_eq!(by_tag(&orders, "loc_low").limit, Some(price("100")));
    assert_eq!(by_tag(&orders, "loc_high").limit, Some(price("110.5")));
}

#[test]
fn second_half_uses_single_full_budget_buy() {
    // cum_spent 20000 / 800 = 25.0 -> T = 25.0 (second half)
    let pos = holding("100", 200, "20000");
    let orders = decide(&strat(), &pos, &snapshot("90"));
    // one buy + two sells
    assert_eq!(orders.iter().filter(|o| o.side == Side::Buy).count(), 1);
    // var(T=25) = 15 - 37.5 = -22.5% -> 77.5
    let buy = by_tag(&orders, "loc_high");
    assert_eq!(buy.limit, Some(price("77.5")));
    // budget 800 / 77.5 = 10.3 -> 10
    assert_eq!(buy.shares, Shares::new(10));
    assert_eq!(by_tag(&orders, "tp_quarter").limit, Some(price("77.5")));
}

#[test]
fn exhausted_and_underwater_triggers_quarter_stop_no_buys() {
    // cum_spent 32000 / 800 = 40.0 -> T = 40 == splits (exhausted)
    let pos = holding("100", 300, "32000");
    let orders = decide(&strat(), &pos, &snapshot("80"));
    assert!(
        orders.iter().all(|o| o.side == Side::Sell),
        "no buys when exhausted"
    );
    // ¼ = 75 sold at market (80) as a stop; ¾ = 225 still at +15% = 115
    let stop = by_tag(&orders, "quarter_stop");
    assert_eq!(stop.shares, Shares::new(75));
    assert_eq!(stop.limit, Some(price("80")));
    assert_eq!(by_tag(&orders, "tp_rest").shares, Shares::new(225));
    // total sells never exceed the holding
    let sold: u32 = orders.iter().map(|o| o.shares.get()).sum();
    assert_eq!(sold, 300);
}

#[test]
fn exhausted_but_above_average_keeps_variable_take_profit() {
    let pos = holding("100", 300, "32000");
    let orders = decide(&strat(), &pos, &snapshot("120"));
    // market above avg -> not a stop; ¼ leg stays a variable take-profit
    assert!(orders.iter().all(|o| o.side == Side::Sell));
    assert!(orders.iter().any(|o| o.tag == "tp_quarter"));
    assert!(orders.iter().all(|o| o.tag != "quarter_stop"));
}

#[test]
fn tiny_quarter_drops_noop_leg() {
    // 3 shares -> quarter = floor(0.75) = 0 -> tp_quarter dropped, tp_rest kept
    let pos = holding("100", 3, "800");
    let orders = decide(&strat(), &pos, &snapshot("100"));
    assert!(orders.iter().all(|o| !o.is_noop()));
    assert!(orders.iter().any(|o| o.tag == "tp_rest"));
    assert!(orders.iter().all(|o| o.tag != "tp_quarter"));
}

#[test]
fn builds_infinite_buying_with_defaults_from_null() {
    let registry = StrategyRegistry::with_builtins();
    let strategy = registry.build("infinite-buying", None).unwrap();
    assert_eq!(strategy.name(), "infinite-buying");
}

#[test]
fn builds_infinite_buying_with_overrides() {
    let registry = StrategyRegistry::with_builtins();
    let params = StrategyParams {
        splits: Some(20),
        take_profit_pct: Some(dec("20")),
        half_boundary: None,
        var_base: None,
        var_slope: None,
        sell_quarter: None,
        quarter_stop: None,
    };
    let strategy = registry.build("infinite-buying", Some(params)).unwrap();
    assert_eq!(strategy.name(), "infinite-buying");
    assert_eq!(strategy.config().splits, 20);
    assert_eq!(strategy.config().take_profit_pct, dec("20"));
    assert_eq!(strategy.config().half_boundary, dec("20"));
}

#[test]
fn unknown_strategy_is_an_error() {
    let registry = StrategyRegistry::with_builtins();
    assert!(registry.build("nope", None).is_err());
}

#[test]
fn lists_builtin_names() {
    assert_eq!(
        StrategyRegistry::with_builtins().names(),
        vec!["infinite-buying"]
    );
}

#[test]
fn no_tag_is_used_twice() {
    let orders = decide(&strat(), &holding("100", 24, "2400"), &snapshot("105"));
    for (i, a) in orders.iter().enumerate() {
        assert!(orders.iter().skip(i + 1).all(|b| a.tag != b.tag));
    }
}

#[test]
fn a_decision_that_leaves_the_range_is_refused() {
    let mut pos = holding("100", 24, "2400");
    pos.avg_price = Price::new(dec("79228162514264337593543950335"));
    let market = snapshot("100");
    let ctx = DailyContext {
        position: &pos,
        market: &market,
    };
    assert!(strat().try_decide(&ctx).is_none());
}

#[test]
fn registered_builders_are_found_by_name() {
    let mut registry: StrategyRegistry<u8> = StrategyRegistry::new();
    assert!(registry.names().is_empty());
    registry.register("two", 2);
    registry.register("one", 1);
    assert_eq!(registry.names(), vec!["one", "two"]);
    assert_eq!(*registry.find("two").unwrap(), 2);
    assert!(registry.find("three").is_err());
}

#[test]
fn a_days_buys_stay_within_the_daily_budget() {
    for pos in [flat(), holding("100", 24, "2400"), holding("97.31", 200, "19462")] {
        let orders = decide(&strat(), &pos, &snapshot("93.17"));
        let mut cost = Money::zero();
        for order in orders.iter().filter(|o| o.side == Side::Buy) {
            cost = cost + order.limit.unwrap().total(order.shares);
        }
        assert!(cost.is_positive());
        assert!(cost <= pos.daily_budget());
    }
}

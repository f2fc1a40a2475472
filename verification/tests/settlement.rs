use drip::date::Date;
use drip::decimal::Decimal;
use drip::market::{Bar, Side};
use drip::money::{Price, Shares};
use drip::order::OrderIntent;
use drip::settlement::settle;

fn price(s: &str) -> Price {
    Price::new(Decimal::parse(s).unwrap()).unwrap()
}

fn bar(open: &str, high: &str, low: &str, close: &str) -> Bar {
    Bar {
        date: Date::from_calendar_date(2026, 1, 15).unwrap(),
        open: price(open),
        high: price(high),
        low: price(low),
        close: price(close),
    }
}

#[test]
fn loc_buy_fills_at_close_when_close_at_or_below_limit() {
    let b = bar("100", "103", "99", "100");
    let intent = OrderIntent::loc(Side::Buy, Shares::new(5), price("100"), "loc_low");
    let fill = settle(&intent, &b).unwrap();
    assert_eq!(fill.price, price("100"));
    assert_eq!(fill.shares, Shares::new(5));
}

#[test]
fn loc_buy_does_not_fill_when_close_above_limit() {
    let b = bar("100", "103", "99", "102");
    let intent = OrderIntent::loc(Side::Buy, Shares::new(5), price("100"), "loc_low");
    assert!(settle(&intent, &b).is_none());
}

#[test]
fn loc_sell_fills_at_close_when_close_at_or_above_limit() {
    let b = bar("110", "116", "109", "115");
    let intent = OrderIntent::loc(Side::Sell, Shares::new(2), price("113"), "tp_quarter");
    let fill = settle(&intent, &b).unwrap();
    assert_eq!(fill.price, price("115"));
}

#[test]
fn limit_sell_fills_at_limit_when_high_reaches_it() {
    let b = bar("110", "116", "109", "112");
    let intent = OrderIntent::limit(Side::Sell, Shares::new(7), price("115"), "tp_rest");
    let fill = settle(&intent, &b).unwrap();
    // fills at the limit, not the close
    assert_eq!(fill.price, price("115"));
}

#[test]
fn limit_sell_does_not_fill_when_high_below_limit() {
    let b = bar("110", "114", "109", "112");
    let intent = OrderIntent::limit(Side::Sell, Shares::new(7), price("115"), "tp_rest");
    assert!(settle(&intent, &b).is_none());
}

#[test]
fn noop_intent_never_fills() {
    let b = bar("100", "103", "99", "100");
    let intent = OrderIntent::loc(Side::Buy, Shares::zero(), price("100"), "loc_low");
    assert!(settle(&intent, &b).is_none());
}

#[test]
fn limit_buy_fills_at_limit_when_low_reaches_it() {
    let b = bar("100", "103", "95", "102");
    let intent = OrderIntent::limit(Side::Buy, Shares::new(1), price("96"), "b");
    assert_eq!(settle(&intent, &b).unwrap().price, price("96"));
    let deeper = OrderIntent::limit(Side::Buy, Shares::new(1), price("94"), "b");
    assert!(settle(&deeper, &b).is_none());
}

#[test]
fn market_orders_fill_at_close() {
    let b = bar("100", "103", "95", "102");
    let fill = settle(&OrderIntent::market(Side::Sell, Shares::new(3), "m"), &b).unwrap();
    assert_eq!(fill.price, price("102"));
    assert_eq!(fill.side, Side::Sell);
    assert_eq!(fill.at, b.date);
}

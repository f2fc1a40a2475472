use drip::date::Date;
use drip::decimal::Decimal;
use drip::error::DomainError;
use drip::market::{Bar, BrokerId, OrderId, Side, Ticker};
use drip::money::{Money, Price, Shares};
use drip::order::OrderIntent;
use drip::paper::PaperBroker;
use drip::ports::BrokerInfo;
use drip::settlement::settle;

fn dec(s: &str) -> Decimal {
    Decimal::parse(s).unwrap()
}

fn price(s: &str) -> Price {
    Price::new(dec(s)).unwrap()
}

fn tqqq() -> Ticker {
    Ticker::new("TQQQ")
}

fn jan(d: u8) -> Date {
    Date::from_calendar_date(2026, 1, d).unwrap()
}

fn bar(close: &str) -> Bar {
    Bar {
        date: jan(15),
        open: price("100"),
        high: price("120"),
        low: price("90"),
        close: price(close),
    }
}

#[test]
fn capabilities_advertise_paper_and_orders_but_no_realtime() {
    let pb = PaperBroker::new(Money::new(dec("10000")));
    let caps = pb.capabilities();
    assert!(caps.paper_account && caps.order_placement);
    assert!(!caps.realtime_quotes);
    assert_eq!(pb.id(), BrokerId::Paper);
}

#[test]
fn buy_loc_fills_and_debits_cash() {
    let mut pb = PaperBroker::new(Money::new(dec("10000")));
    pb.set_market(tqqq(), bar("100"));
    let intent = OrderIntent::loc(Side::Buy, Shares::new(5), price("100"), "loc_low");

    pb.place(&tqqq(), &intent).unwrap();

    let holdings = pb.holdings();
    assert_eq!(holdings.len(), 1);
    assert_eq!(holdings[0].shares, Shares::new(5));
    assert_eq!(holdings[0].avg_price, Some(price("100")));
    // 10000 - 5 * 100 = 9500
    assert_eq!(pb.balance(), Money::new(dec("9500")));
}

#[test]
fn loc_buy_above_close_does_not_fill() {
    let mut pb = PaperBroker::new(Money::new(dec("10000")));
    pb.set_market(tqqq(), bar("105")); // close 105 > limit 100 -> no fill
    let intent = OrderIntent::loc(Side::Buy, Shares::new(5), price("100"), "loc_low");

    pb.place(&tqqq(), &intent).unwrap();

    assert!(pb.holdings().is_empty());
    assert_eq!(pb.balance(), Money::new(dec("10000")));
}

#[test]
fn sell_credits_cash_and_reduces_holding() {
    let mut pb = PaperBroker::new(Money::new(dec("10000")));
    pb.set_market(tqqq(), bar("100"));
    pb.place(
        &tqqq(),
        &OrderIntent::loc(Side::Buy, Shares::new(10), price("100"), "buy"),
    )
    .unwrap();
    // Sell 4 at a +15% limit; high is 120 so it fills at 115.
    pb.set_market(tqqq(), bar("118"));
    pb.place(
        &tqqq(),
        &OrderIntent::limit(Side::Sell, Shares::new(4), price("115"), "tp"),
    )
    .unwrap();

    let holdings = pb.holdings();
    assert_eq!(holdings[0].shares, Shares::new(6));
    // 10000 - 1000 (buy) + 4*115 (sell) = 9460
    assert_eq!(pb.balance(), Money::new(dec("9460")));
}

#[test]
fn quote_returns_last_close_or_errors_when_unknown() {
    let mut pb = PaperBroker::new(Money::new(dec("10000")));
    assert!(pb.quote(&tqqq()).is_err());
    pb.set_market(tqqq(), bar("100"));
    assert_eq!(pb.quote(&tqqq()).unwrap().price, price("100"));
}

#[test]
fn sell_cannot_exceed_holding_or_invent_cash() {
    let mut pb = PaperBroker::new(Money::new(dec("10000")));
    pb.set_market(tqqq(), bar("100"));
    pb.place(
        &tqqq(),
        &OrderIntent::loc(Side::Buy, Shares::new(3), price("100"), "buy"),
    )
    .unwrap();
    // Attempt to sell 10 while holding only 3 (limit fills at 105 since high is 120).
    pb.set_market(tqqq(), bar("120"));
    pb.place(
        &tqqq(),
        &OrderIntent::limit(Side::Sell, Shares::new(10), price("105"), "tp"),
    )
    .unwrap();
    assert!(pb.holdings().is_empty()); // sold exactly the 3 held
    // 10000 - 3*100 (buy) + 3*105 (sell) = 10015 — no phantom cash from the extra 7.
    assert_eq!(pb.balance(), Money::new(dec("10015")));
}

#[test]
fn fills_are_reported_per_ticker_and_from_a_day_on() {
    let mut pb = PaperBroker::new(Money::new(dec("10000")));
    pb.set_market(tqqq(), bar("100"));
    pb.set_market(Ticker::new("SOXL"), bar("50"));
    let buy = OrderIntent::loc(Side::Buy, Shares::new(2), price("100"), "buy");
    pb.place(&tqqq(), &buy).unwrap();
    pb.place(&Ticker::new("SOXL"), &buy).unwrap();
    let fills = pb.fills_since(&tqqq(), jan(15));
    assert_eq!(fills.len(), 1);
    assert_eq!(fills[0].price, price("100"));
    assert!(pb.fills_since(&tqqq(), jan(16)).is_empty());
}

#[test]
fn orders_for_an_unknown_ticker_fail_and_cancelling_does_nothing() {
    let mut pb = PaperBroker::new(Money::new(dec("10000")));
    let buy = OrderIntent::loc(Side::Buy, Shares::new(2), price("100"), "buy");
    assert!(matches!(
        pb.place(&tqqq(), &buy),
        Err(DomainError::MarketData(_))
    ));
    assert!(pb.cancel(&OrderId::new("paper-1")).is_ok());
}

#[test]
fn order_numbers_count_up() {
    let mut pb = PaperBroker::new(Money::new(dec("10000")));
    pb.set_market(tqqq(), bar("100"));
    let buy = OrderIntent::loc(Side::Buy, Shares::new(1), price("100"), "buy");
    let first = pb.place(&tqqq(), &buy).unwrap();
    let second = pb.place(&tqqq(), &buy).unwrap();
    assert_ne!(first, second);
    assert_eq!(first.as_str(), "paper-1");
    assert_eq!(second.as_str(), "paper-2");
}

#[test]
fn an_order_that_leaves_the_range_changes_nothing() {
    let mut pb = PaperBroker::new(Money::new(dec("-79228162514264337593543950335")));
    pb.set_market(tqqq(), bar("100"));
    let buy = OrderIntent::loc(Side::Buy, Shares::new(1), price("100"), "buy");
    assert!(pb.try_place(&tqqq(), &buy).is_none());
    assert!(pb.holdings().is_empty());
}

#[test]
fn paper_orders_fill_as_a_bar_settles_them() {
    let day = bar("100");
    for limit in ["89", "95", "100", "101"] {
        for intent in [
            OrderIntent::loc(Side::Buy, Shares::new(3), price(limit), "loc"),
            OrderIntent::limit(Side::Buy, Shares::new(3), price(limit), "limit"),
        ] {
            let mut pb = PaperBroker::new(Money::new(dec("10000")));
            pb.set_market(tqqq(), day);
            pb.place(&tqqq(), &intent).unwrap();
            let fills = pb.fills_since(&tqqq(), jan(1));
            match settle(&intent, &day) {
                Some(fill) => {
                    assert_eq!(fills.len(), 1);
                    assert_eq!(fills[0].price, fill.price);
                    assert_eq!(fills[0].shares, fill.shares);
                }
                None => assert!(fills.is_empty()),
            }
        }
    }
}

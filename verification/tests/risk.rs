use drip::decimal::Decimal;
use drip::error::DomainError;
use drip::market::{AccountId, BrokerId, Side, Ticker};
use drip::money::{Money, Price, Shares};
use drip::order::OrderIntent;
use drip::position::Position;
use drip::risk::{try_vet, vet};

fn dec(s: &str) -> Decimal {
    Decimal::parse(s).unwrap()
}

fn price(s: &str) -> Price {
    Price::new(dec(s)).unwrap()
}

fn position() -> Position {
    // seed 32000 / 40 = 800 daily budget; 10 shares held at avg 100.
    let mut p = Position::new(
        AccountId::new("kis-paper"),
        BrokerId::Kis,
        Ticker::new("TQQQ"),
        Money::new(dec("32000")),
        40,
    );
    p.shares = Shares::new(10);
    p.avg_price = Price::new(dec("100"));
    p
}

#[test]
fn accepts_a_normal_buy() {
    let intent = OrderIntent::loc(Side::Buy, Shares::new(4), price("100"), "loc_low");
    assert!(vet(&intent, &position(), price("100")).is_ok());
}

#[test]
fn accepts_a_sell_within_the_holding() {
    let intent = OrderIntent::limit(Side::Sell, Shares::new(7), price("115"), "tp_rest");
    assert!(vet(&intent, &position(), price("110")).is_ok());
}

#[test]
fn rejects_a_sell_exceeding_the_holding() {
    let intent = OrderIntent::limit(Side::Sell, Shares::new(11), price("115"), "tp_rest");
    assert!(matches!(
        vet(&intent, &position(), price("110")),
        Err(DomainError::Risk(_))
    ));
}

#[test]
fn rejects_an_oversized_buy_notional() {
    // 100 shares @ 100 = 10_000 notional vs 800 budget × 3 = 2_400 cap.
    let intent = OrderIntent::loc(Side::Buy, Shares::new(100), price("100"), "loc_low");
    assert!(matches!(
        vet(&intent, &position(), price("100")),
        Err(DomainError::Risk(_))
    ));
}

#[test]
fn rejects_a_fat_finger_price() {
    // A misplaced decimal: limit 1000 against a 100 reference (exactly 10×) is rejected.
    let intent = OrderIntent::limit(Side::Sell, Shares::new(1), price("1000"), "tp_rest");
    assert!(matches!(
        vet(&intent, &position(), price("100")),
        Err(DomainError::Risk(_))
    ));
}

#[test]
fn rejects_a_noop() {
    let intent = OrderIntent::loc(Side::Buy, Shares::zero(), price("100"), "loc_low");
    assert!(matches!(
        vet(&intent, &position(), price("100")),
        Err(DomainError::Risk(_))
    ));
}

#[test]
fn accepts_a_deep_drawdown_take_profit_anchored_on_average() {
    // avg 100 but the quote has crashed to 9 (a 3× ETF down ~90%): the take-profit at
    // avg × 1.15 = 115 deviates >10× from the quote yet is anchored on the average.
    let intent = OrderIntent::limit(Side::Sell, Shares::new(7), price("115"), "tp_rest");
    assert!(vet(&intent, &position(), price("9")).is_ok());
}

#[test]
fn a_buy_at_the_cap_passes_and_one_above_it_fails() {
    // 24 shares @ 100 = 2_400, exactly three budgets.
    let at = OrderIntent::loc(Side::Buy, Shares::new(24), price("100"), "loc_low");
    assert!(vet(&at, &position(), price("100")).is_ok());
    let above = OrderIntent::loc(Side::Buy, Shares::new(25), price("100"), "loc_low");
    assert!(vet(&above, &position(), price("100")).is_err());
}

#[test]
fn a_check_that_leaves_the_range_is_refused() {
    let huge = price("79228162514264337593543950335");
    let intent = OrderIntent::loc(Side::Buy, Shares::new(2), huge, "loc_low");
    assert!(try_vet(&intent, &position(), huge).is_none());
}

use drip::date::Date;
use drip::decimal::Decimal;
use drip::market::{AccountId, BrokerId, Side, Ticker};
use drip::money::{Price, Shares};
use drip::order::{OrderIntent, OrderKind};

fn intent(tag: &'static str) -> OrderIntent {
    let limit = Price::new(Decimal::parse("188.475").unwrap()).unwrap();
    OrderIntent::loc(Side::Buy, Shares::new(1), limit, tag)
}

fn day(d: u8) -> Date {
    Date::from_calendar_date(2026, 6, d).unwrap()
}

#[test]
fn client_key_is_scoped_by_account() {
    let intent = intent("loc_low");
    let ticker = Ticker::new("122630");
    let paper = intent.client_key(&AccountId::new("kis-paper"), &ticker, day(25));
    let real = intent.client_key(&AccountId::new("kis-real"), &ticker, day(25));
    assert_ne!(paper, real);
    assert_eq!(paper, "kis-paper:122630:2026-06-25:loc_low");
    assert_eq!(real, "kis-real:122630:2026-06-25:loc_low");
}

#[test]
fn client_key_is_scoped_by_day_and_leg() {
    let account = AccountId::new("kis-paper");
    let ticker = Ticker::new("TQQQ");
    let low = intent("loc_low").client_key(&account, &ticker, day(25));
    assert_ne!(low, intent("loc_low").client_key(&account, &ticker, day(26)));
    assert_ne!(low, intent("loc_high").client_key(&account, &ticker, day(25)));
    assert_eq!(low, intent("loc_low").client_key(&account, &ticker, day(25)));
}

#[test]
fn constructors_set_kind_and_limit() {
    let limit = Price::new(Decimal::parse("10").unwrap()).unwrap();
    let order = OrderIntent::limit(Side::Sell, Shares::new(2), limit, "tp");
    assert_eq!(order.kind, OrderKind::Limit);
    assert_eq!(order.limit, Some(limit));
    let market = OrderIntent::market(Side::Buy, Shares::zero(), "mkt");
    assert_eq!(market.kind, OrderKind::Market);
    assert_eq!(market.limit, None);
    assert!(market.is_noop());
    assert!(!order.is_noop());
}

#[test]
fn tickers_are_upper_case_and_trimmed() {
    assert_eq!(Ticker::new(" tqqq ").as_str(), "TQQQ");
    assert_eq!(Ticker::new("122630").as_str(), "122630");
}

#[test]
fn credentials_are_named_by_account() {
    assert_eq!(AccountId::secret_key("kis-real", "app_key"), "kis-real_app_key");
    assert_ne!(
        AccountId::secret_key("kis-real", "app_key"),
        AccountId::secret_key("kis-paper", "app_key")
    );
}

#[test]
fn broker_names_round_trip() {
    for broker in [BrokerId::Paper, BrokerId::Kis, BrokerId::Toss] {
        assert_eq!(BrokerId::from_str(broker.as_str()).unwrap(), broker);
    }
    assert_eq!(BrokerId::from_str("kis-domestic").unwrap(), BrokerId::Kis);
    assert!(BrokerId::from_str("nope").is_err());
}

#[test]
fn keys_of_years_before_zero_differ_too() {
    let account = AccountId::new("kis-paper");
    let ticker = Ticker::new("TQQQ");
    let early = Date::from_calendar_date(-1, 6, 25).unwrap();
    let late = Date::from_calendar_date(1, 6, 25).unwrap();
    let key = intent("loc_low").client_key(&account, &ticker, early);
    assert_eq!(key, "kis-paper:TQQQ:-0001-06-25:loc_low");
    assert_ne!(key, intent("loc_low").client_key(&account, &ticker, late));
}

use drip::date::Date;
use drip::decimal::Decimal;
use drip::error::DomainError;
use drip::market::Ticker;
use drip::money::{Money, Price, Shares};
use drip::ports::BrokerInfo;
use drip::toss::{Json, TossBroker, TossConfig};

fn dec(s: &str) -> Decimal {
    Decimal::parse(s).unwrap()
}

fn day() -> Date {
    Date::from_calendar_date(2026, 6, 1).unwrap()
}

fn broker() -> TossBroker {
    TossBroker::new(TossConfig {
        app_key: "k".into(),
        app_secret: "s".into(),
        account_seq: 7,
    })
}

fn text(s: &str) -> Json {
    Json::Text(s.into())
}

fn object(entries: Vec<(&str, Json)>) -> Json {
    Json::Object(entries.into_iter().map(|(k, v)| (k.into(), v)).collect())
}

#[test]
fn quote_parses_last_price_from_result_array() {
    let body = object(vec![(
        "result",
        Json::Array(vec![object(vec![
            ("symbol", text("TQQQ")),
            ("lastPrice", text("88.20")),
            ("currency", text("USD")),
        ])]),
    )]);
    let quote = broker().quote(&Ticker::new("TQQQ"), day(), &body).unwrap();
    assert_eq!(quote.price, Price::new(dec("88.20")).unwrap());
}

#[test]
fn holdings_parse_items_and_skip_empty() {
    let item = |symbol: &str, quantity: &str, average: &str| {
        object(vec![
            ("symbol", text(symbol)),
            ("quantity", text(quantity)),
            ("averagePurchasePrice", text(average)),
        ])
    };
    let body = object(vec![(
        "result",
        object(vec![(
            "items",
            Json::Array(vec![item("TQQQ", "12", "60.0"), item("SOXL", "0", "0")]),
        )]),
    )]);
    let holdings = broker().holdings(&body).unwrap();
    assert_eq!(holdings.len(), 1);
    assert_eq!(holdings[0].shares, Shares::new(12));
    assert_eq!(holdings[0].avg_price, Price::new(dec("60.0")));
}

#[test]
fn balance_reads_cash_from_buying_power() {
    let body = object(vec![(
        "result",
        object(vec![("cash", text("1500.25")), ("currency", text("USD"))]),
    )]);
    assert_eq!(broker().balance(&body).unwrap(), Money::new(dec("1500.25")));
}

#[test]
fn capabilities_have_no_paper_no_orders_no_realtime() {
    let caps = broker().capabilities();
    assert!(!caps.paper_account);
    assert!(!caps.order_placement);
    assert!(!caps.realtime_quotes);
    assert!(caps.overseas);
}

#[test]
fn responses_of_another_shape_are_errors() {
    let empty = object(vec![]);
    assert!(matches!(
        broker().quote(&Ticker::new("TQQQ"), day(), &empty),
        Err(DomainError::Broker(_))
    ));
    assert!(broker().holdings(&Json::Other).is_err());
    assert!(broker().balance(&text("x")).is_err());
    let zero = object(vec![(
        "result",
        Json::Array(vec![object(vec![("lastPrice", text("0"))])]),
    )]);
    assert!(broker().quote(&Ticker::new("TQQQ"), day(), &zero).is_err());
}

#[test]
fn executions_are_not_reported() {
    assert!(matches!(
        broker().fills_since(&Ticker::new("TQQQ"), day()),
        Err(DomainError::Unsupported(_))
    ));
}

#[test]
fn requests_name_the_endpoint_and_the_account() {
    let broker = broker();
    let prices = broker.quote_request(&Ticker::new("tqqq"));
    assert_eq!(prices.path, "/api/v1/prices");
    assert_eq!(prices.query[0].name, "symbols");
    assert_eq!(prices.query[0].value, "TQQQ");
    assert_eq!(broker.holdings_request().path, "/api/v1/holdings");
    assert!(broker.holdings_request().query.is_empty());
    assert_eq!(broker.balance_request().path, "/api/v1/buying-power");
    assert_eq!(broker.balance_request().query[0].value, "AAPL");
    let headers = broker.authed("tok");
    assert_eq!(headers[0].value, "Bearer tok");
    assert_eq!(headers[1].name, "x-tossinvest-account");
    assert_eq!(headers[1].value, "7");
    assert_eq!(broker.token_form()[1].value, "k");
}

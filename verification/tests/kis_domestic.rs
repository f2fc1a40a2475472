use drip::date::Date;
use drip::decimal::Decimal;
use drip::error::DomainError;
use drip::http::Field;
use drip::kis::KisOrderResp;
use drip::kis_domestic::{
    etf_tick_round, price_from_value, try_etf_tick_round, DailyCcldResp, DailyCcldRow,
    DomesticBalanceResp, DomesticLot, DomesticQuoteResp, KisDomesticBroker,
};
use drip::kis_session::{FillScan, KisConfig, KisEnv, KisExchange};
use drip::market::{OrderId, Side, Ticker};
use drip::money::{Money, Price, Shares};
use drip::order::OrderIntent;
use drip::ports::BrokerInfo;

fn dec(s: &str) -> Decimal {
    Decimal::parse(s).unwrap()
}

fn price(s: &str) -> Price {
    Price::new(dec(s)).unwrap()
}

fn jun(d: u8) -> Date {
    Date::from_calendar_date(2026, 6, d).unwrap()
}

fn kodex() -> Ticker {
    Ticker::new("122630")
}

fn broker(environment: KisEnv) -> KisDomesticBroker {
    KisDomesticBroker::new(KisConfig {
        environment,
        app_key: "key".into(),
        app_secret: "secret".into(),
        cano: "12345678".into(),
        product_code: "01".into(),
        exchange: KisExchange::Nasdaq,
    })
}

fn field<'a>(fields: &'a [Field], name: &str) -> &'a str {
    &fields.iter().find(|f| f.name == name).unwrap().value
}

#[test]
fn quote_parses_current_price() {
    let broker = broker(KisEnv::Paper);
    assert_eq!(
        broker.quote_request(&kodex()).path,
        "/uapi/domestic-stock/v1/quotations/inquire-price"
    );
    let body = DomesticQuoteResp {
        rt_cd: "0".into(),
        msg1: "ok".into(),
        stck_prpr: "12345".into(),
    };
    let quote = broker.quote(&kodex(), jun(1), &body).unwrap();
    assert_eq!(quote.price, price("12345"));
    assert_eq!(quote.ticker, kodex());
}

#[test]
fn balance_parses_the_deposit_field() {
    let body = DomesticBalanceResp {
        rt_cd: "0".into(),
        msg1: "ok".into(),
        output1: vec![],
        dnca_tot_amt: vec!["1500000".into()],
    };
    let broker = broker(KisEnv::Paper);
    assert_eq!(
        broker.balance_request().path,
        "/uapi/domestic-stock/v1/trading/inquire-balance"
    );
    assert_eq!(broker.balance(&body).unwrap(), Money::new(dec("1500000")));
}

#[test]
fn kis_domestic_holdings_skip_zero_quantity_lots() {
    let lot = |symbol: &str, quantity: &str, average: &str| DomesticLot {
        pdno: symbol.into(),
        hldg_qty: quantity.into(),
        pchs_avg_pric: average.into(),
    };
    let body = DomesticBalanceResp {
        rt_cd: "0".into(),
        msg1: "ok".into(),
        output1: vec![lot("122630", "10", "20000"), lot("252670", "0", "0")],
        dnca_tot_amt: vec!["500000".into()],
    };
    let holdings = broker(KisEnv::Paper).holdings(&body).unwrap();
    assert_eq!(holdings.len(), 1);
    assert_eq!(holdings[0].ticker, kodex());
    assert_eq!(holdings[0].shares, Shares::new(10));
    assert_eq!(holdings[0].avg_price, Price::new(dec("20000")));
}

#[test]
fn balance_is_zero_when_the_deposit_field_is_absent() {
    // A summary-less account returns rt_cd "0" but an empty `output2` array.
    let body = DomesticBalanceResp {
        rt_cd: "0".into(),
        msg1: "모의투자 조회할 내역(자료)이 없습니다.".into(),
        output1: vec![],
        dnca_tot_amt: vec![],
    };
    let broker = broker(KisEnv::Paper);
    assert!(broker.holdings(&body).unwrap().is_empty());
    assert_eq!(broker.balance(&body).unwrap(), Money::new(dec("0")));
}

#[test]
fn place_sends_a_limit_order_rounded_to_the_etf_tick() {
    // 지정가 (00); the 188,477.3 limit rounds to the 5원 ETF tick → 188,475.
    let intent = OrderIntent::loc(Side::Buy, Shares::new(1), price("188477.3"), "loc_low");
    let broker = broker(KisEnv::Paper);
    let request = broker.place_request(&kodex(), &intent).unwrap();
    assert_eq!(request.path, "/uapi/domestic-stock/v1/trading/order-cash");
    assert_eq!(field(&request.fields, "PDNO"), "122630");
    assert_eq!(field(&request.fields, "ORD_DVSN"), "00");
    assert_eq!(field(&request.fields, "ORD_QTY"), "1");
    assert_eq!(field(&request.fields, "ORD_UNPR"), "188475");
    assert_eq!(field(&request.fields, "EXCG_ID_DVSN_CD"), "KRX");
    let id = broker
        .place(&KisOrderResp {
            rt_cd: "0".into(),
            msg1: "ok".into(),
            krx_fwdg_ord_orgno: "00950".into(),
            odno: "0001234567".into(),
        })
        .unwrap();
    assert_eq!(id.as_str(), "00950/0001234567");
}

#[test]
fn etf_tick_round_is_5won_at_or_above_2000_and_1won_below() {
    assert_eq!(etf_tick_round(dec("188477.3")), dec("188475")); // nearest 5원 tick (≥2,000)
    assert_eq!(etf_tick_round(dec("188478")), dec("188480")); // nearest 5원 tick
    assert_eq!(etf_tick_round(dec("2002.5")), dec("2000")); // exact half-tick → banker's (to even)
    assert_eq!(etf_tick_round(dec("2000")), dec("2000")); // boundary → 5원 tick
    assert_eq!(etf_tick_round(dec("1999.6")), dec("2000")); // <2,000 → nearest 1원
    assert_eq!(etf_tick_round(dec("1850.4")), dec("1850")); // <2,000 → nearest 1원
}

#[test]
fn place_refuses_a_real_account() {
    // A real account must be refused before any request is made.
    let intent = OrderIntent::loc(Side::Buy, Shares::new(1), price("200000"), "loc");
    assert!(matches!(
        broker(KisEnv::Real).place_request(&kodex(), &intent),
        Err(DomainError::Unsupported(_))
    ));
}

#[test]
fn fills_since_derives_the_price_and_skips_unfilled_and_other_tickers() {
    let row = |day: &str, symbol: &str, side: &str, quantity: &str, amount: &str| DailyCcldRow {
        ord_dt: day.into(),
        pdno: symbol.into(),
        sll_buy_dvsn_cd: side.into(),
        tot_ccld_qty: quantity.into(),
        tot_ccld_amt: amount.into(),
    };
    let broker = broker(KisEnv::Paper);
    let request = broker.fills_request(&kodex(), jun(1), jun(26), &FillScan::new());
    assert_eq!(
        request.path,
        "/uapi/domestic-stock/v1/trading/inquire-daily-ccld"
    );
    assert_eq!(request.tr_id, "VTTC0081R"); // paper, 3개월 이내
    let body = DailyCcldResp {
        rt_cd: "0".into(),
        msg1: "ok".into(),
        output1: vec![
            // Filled buy of our ticker: 2 shares, 376,950원 total → 188,475원 avg price.
            row("20260624", "122630", "02", "2", "376950"),
            // A later filled sell.
            row("20260625", "122630", "01", "1", "200000"),
            // Ordered but nothing filled yet -> skip.
            row("20260624", "122630", "02", "0", "0"),
            // A different ticker (a paper query returns the whole account) -> skip.
            row("20260624", "069500", "02", "5", "100000"),
        ],
        ctx_area_fk100: "".into(),
        ctx_area_nk100: "".into(),
    };
    let (scan, done) = broker
        .fills_since(&kodex(), FillScan::new(), None, &body)
        .unwrap();
    assert!(done);
    let fills = scan.into_fills();
    assert_eq!(fills.len(), 2);
    // The execution price is derived from total filled value ÷ filled quantity.
    assert_eq!(fills[0].side, Side::Buy);
    assert_eq!(fills[0].shares, Shares::new(2));
    assert_eq!(fills[0].price, price("188475"));
    assert_eq!(fills[0].at, jun(24));
    assert_eq!(fills[1].side, Side::Sell);
    assert_eq!(fills[1].shares, Shares::new(1));
    assert_eq!(fills[1].price, price("200000"));
    assert_eq!(fills[1].at, jun(25));
}

#[test]
fn a_fill_without_value_has_no_price() {
    assert_eq!(
        price_from_value(&kodex(), dec("100"), Shares::new(8)).unwrap(),
        price("12.5")
    );
    assert!(price_from_value(&kodex(), dec("0"), Shares::new(2)).is_err());
}

#[test]
fn market_orders_and_cancelling_are_unsupported() {
    let intent = OrderIntent::market(Side::Sell, Shares::new(1), "m");
    assert!(broker(KisEnv::Paper).place_request(&kodex(), &intent).is_err());
    assert!(matches!(
        broker(KisEnv::Paper).cancel(&OrderId::new("x")),
        Err(DomainError::Unsupported(_))
    ));
    assert!(broker(KisEnv::Paper).capabilities().paper_account);
    assert!(!broker(KisEnv::Paper).capabilities().overseas);
}

#[test]
fn even_the_largest_price_has_a_tick() {
    assert_eq!(try_etf_tick_round(dec("2003")), Some(dec("2005")));
    let largest = dec("79228162514264337593543950335");
    assert_eq!(try_etf_tick_round(largest), Some(largest));
}

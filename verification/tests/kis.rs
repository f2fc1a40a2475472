use drip::date::Date;
use drip::decimal::Decimal;
use drip::error::DomainError;
use drip::http::Field;
use drip::kis::{KisBalanceResp, KisBroker, KisExecResp, KisExecRow, KisLot, KisOrderResp, KisQuoteResp};
use drip::kis_session::{
    authed, kis_cache_filename, token_body, FillScan, KisConfig, KisEnv, KisExchange, MAX_PAGES,
};
use drip::market::{OrderId, Side, Ticker};
use drip::money::{Money, Price, Shares};
use drip::order::OrderIntent;
use drip::ports::BrokerInfo;

fn dec(s: &str) -> Decimal {
    Decimal::parse(s).unwrap()
}

fn price(s: &str) -> Price {
    Price::new(dec(s)).unwrap()
}

fn jun(d: u8) -> Date {
    Date::from_calendar_date(2026, 6, d).unwrap()
}

fn tqqq() -> Ticker {
    Ticker::new("TQQQ")
}

fn config(environment: KisEnv) -> KisConfig {
    KisConfig {
        environment,
        app_key: "key".into(),
        app_secret: "secret".into(),
        cano: "12345678".into(),
        product_code: "01".into(),
        exchange: KisExchange::Nasdaq,
    }
}

fn broker() -> KisBroker {
    KisBroker::new(config(KisEnv::Paper))
}

fn field<'a>(fields: &'a [Field], name: &str) -> &'a str {
    &fields.iter().find(|f| f.name == name).unwrap().value
}

fn row(day: &str, symbol: &str, side: &str, quantity: &str, at: &str) -> KisExecRow {
    KisExecRow {
        ord_dt: day.into(),
        pdno: symbol.into(),
        sll_buy_dvsn_cd: side.into(),
        ft_ccld_qty: quantity.into(),
        ft_ccld_unpr3: at.into(),
    }
}

fn page(output: Vec<KisExecRow>, fk: &str, nk: &str) -> KisExecResp {
    KisExecResp {
        rt_cd: "0".into(),
        msg1: "ok".into(),
        output,
        ctx_area_fk200: fk.into(),
        ctx_area_nk200: nk.into(),
    }
}

#[test]
fn quote_parses_last_price() {
    let body = KisQuoteResp {
        rt_cd: "0".into(),
        msg1: "ok".into(),
        last: "123.45".into(),
    };
    assert_eq!(
        broker().quote_request(&tqqq()).path,
        "/uapi/overseas-price/v1/quotations/price"
    );
    let quote = broker().quote(&tqqq(), jun(1), &body).unwrap();
    assert_eq!(quote.price, price("123.45"));
}

#[test]
fn kis_holdings_skip_zero_quantity_lots() {
    let lot = |symbol: &str, quantity: &str, average: &str| KisLot {
        ovrs_pdno: symbol.into(),
        ovrs_cblc_qty: quantity.into(),
        pchs_avg_pric: average.into(),
    };
    let body = KisBalanceResp {
        rt_cd: "0".into(),
        msg1: "ok".into(),
        output1: vec![lot("TQQQ", "10", "55.5"), lot("SOXL", "0", "0")],
        ovrs_stck_evlu_amt: "600.00".into(),
    };
    let broker = broker();
    assert_eq!(
        broker.balance_request().path,
        "/uapi/overseas-stock/v1/trading/inquire-balance"
    );
    let holdings = broker.holdings(&body).unwrap();
    assert_eq!(holdings.len(), 1);
    assert_eq!(holdings[0].ticker, tqqq());
    assert_eq!(holdings[0].shares, Shares::new(10));
    assert_eq!(holdings[0].avg_price, Price::new(dec("55.5")));
    assert_eq!(broker.balance(&body).unwrap(), Money::new(dec("600.00")));
}

#[test]
fn error_rt_cd_is_propagated() {
    let body = KisQuoteResp {
        rt_cd: "1".into(),
        msg1: "rate limit".into(),
        last: "".into(),
    };
    assert!(broker().quote(&tqqq(), jun(1), &body).is_err());
}

#[test]
fn paper_environment_advertises_paper_account_and_order_placement() {
    let caps = broker().capabilities();
    assert!(caps.paper_account);
    assert!(caps.order_placement); // KIS can place orders (모의 and real)
    assert!(!caps.realtime_quotes);
}

#[test]
fn place_buy_loc_on_paper_degrades_to_limit_division() {
    let intent = OrderIntent::loc(Side::Buy, Shares::new(4), price("100"), "loc_low");
    let request = broker().place_request(&tqqq(), &intent).unwrap();
    assert_eq!(request.path, "/uapi/overseas-stock/v1/trading/order");
    assert_eq!(request.tr_id, "VTTT1002U");
    assert_eq!(field(&request.fields, "ORD_DVSN"), "00");
    assert_eq!(field(&request.fields, "PDNO"), "TQQQ");
    assert_eq!(field(&request.fields, "ORD_QTY"), "4");
    assert_eq!(field(&request.fields, "OVRS_ORD_UNPR"), "100");
    let id = broker()
        .place(&KisOrderResp {
            rt_cd: "0".into(),
            msg1: "ok".into(),
            krx_fwdg_ord_orgno: "0000".into(),
            odno: "0030".into(),
        })
        .unwrap();
    assert_eq!(id, OrderId::new("0000/0030"));
}

#[test]
fn place_buy_loc_on_real_uses_loc_division_and_real_tr_id() {
    let intent = OrderIntent::loc(Side::Buy, Shares::new(2), price("90"), "loc_high");
    let broker = KisBroker::new(config(KisEnv::Real));
    let request = broker.place_request(&tqqq(), &intent).unwrap();
    assert_eq!(request.tr_id, "TTTT1002U");
    assert_eq!(field(&request.fields, "ORD_DVSN"), "34");
    // An empty org number falls back to the bare order number.
    let id = broker
        .place(&KisOrderResp {
            rt_cd: "0".into(),
            msg1: "ok".into(),
            krx_fwdg_ord_orgno: "".into(),
            odno: "55".into(),
        })
        .unwrap();
    assert_eq!(id, OrderId::new("55"));
}

#[test]
fn place_rejects_market_orders_without_calling_the_api() {
    let intent = OrderIntent::market(Side::Buy, Shares::new(1), "mkt");
    let result = broker().place_request(&tqqq(), &intent);
    assert!(matches!(result, Err(DomainError::Unsupported(_))));
}

#[test]
fn place_propagates_error_rt_cd() {
    let intent = OrderIntent::limit(Side::Sell, Shares::new(1), price("115"), "tp");
    assert!(broker().place_request(&tqqq(), &intent).is_ok());
    let rejected = broker().place(&KisOrderResp {
        rt_cd: "1".into(),
        msg1: "rejected".into(),
        krx_fwdg_ord_orgno: "".into(),
        odno: "".into(),
    });
    assert!(rejected.is_err());
}

#[test]
fn cancel_is_unsupported_in_m2_1() {
    let result = broker().cancel(&OrderId::new("x"));
    assert!(matches!(result, Err(DomainError::Unsupported(_))));
}

#[test]
fn fills_since_maps_executions_and_filters_unfilled_and_other_tickers() {
    let broker = broker();
    let request = broker.fills_request(&tqqq(), jun(1), jun(21), &FillScan::new());
    assert_eq!(request.path, "/uapi/overseas-stock/v1/trading/inquire-ccnl");
    assert_eq!(request.tr_id, "VTTS3035R"); // paper
    let body = page(
        vec![
            row("20260618", "TQQQ", "02", "8", "100.25"),
            row("20260619", "TQQQ", "01", "3", "115.50"),
            row("20260619", "TQQQ", "02", "0", "0"),  // unfilled -> skip
            row("20260619", "SOXL", "02", "5", "30"), // other ticker -> skip
        ],
        "",
        "",
    );
    let (scan, done) = broker
        .fills_since(&tqqq(), FillScan::new(), None, &body)
        .unwrap();
    assert!(done);
    let fills = scan.into_fills();
    assert_eq!(fills.len(), 2);
    assert_eq!(fills[0].side, Side::Buy);
    assert_eq!(fills[0].shares, Shares::new(8));
    assert_eq!(fills[0].price, price("100.25"));
    assert_eq!(fills[0].at, jun(18));
    assert_eq!(fills[1].side, Side::Sell);
    assert_eq!(fills[1].shares, Shares::new(3));
    assert_eq!(fills[1].at, jun(19));
}

#[test]
fn fills_since_follows_pagination() {
    let broker = broker();
    let scan = FillScan::new();
    let first = broker.fills_request(&tqqq(), jun(1), jun(21), &scan);
    assert_eq!(field(&first.fields, "CTX_AREA_NK200"), "");
    // Page 1: tr_cont "M" (more) + a continuation key in the body.
    let (scan, done) = broker
        .fills_since(
            &tqqq(),
            scan,
            Some("M"),
            &page(vec![row("20260618", "TQQQ", "02", "4", "100")], "FK2", "NK2"),
        )
        .unwrap();
    assert!(!done);
    let second = broker.fills_request(&tqqq(), jun(1), jun(21), &scan);
    assert_eq!(field(&second.fields, "CTX_AREA_FK200"), "FK2");
    assert_eq!(field(&second.fields, "CTX_AREA_NK200"), "NK2");
    assert_eq!(second.tr_cont.as_deref(), Some("N"));
    // Page 2: requested with the key; tr_cont "D" (done).
    let (scan, done) = broker
        .fills_since(
            &tqqq(),
            scan,
            Some("D"),
            &page(vec![row("20260619", "TQQQ", "02", "6", "98")], "", ""),
        )
        .unwrap();
    assert!(done);
    let fills = scan.into_fills();
    assert_eq!(fills.len(), 2); // both pages collected
    assert_eq!(fills[0].shares, Shares::new(4));
    assert_eq!(fills[1].shares, Shares::new(6));
}

#[test]
fn fills_since_real_scopes_by_ticker_and_tr_id() {
    let broker = KisBroker::new(config(KisEnv::Real));
    let request = broker.fills_request(&tqqq(), jun(1), jun(21), &FillScan::new());
    assert_eq!(request.tr_id, "TTTS3035R"); // real
    assert_eq!(field(&request.fields, "PDNO"), "TQQQ");
    assert_eq!(field(&request.fields, "OVRS_EXCG_CD"), "NASD");
    let (scan, _) = broker
        .fills_since(&tqqq(), FillScan::new(), None, &page(vec![], "", ""))
        .unwrap();
    assert!(scan.into_fills().is_empty());
}

#[test]
fn a_scan_with_too_many_pages_fails_rather_than_stop_short() {
    let broker = broker();
    let mut scan = FillScan::new();
    for _ in 1..MAX_PAGES {
        let (next, done) = broker
            .fills_since(
                &tqqq(),
                scan,
                Some("M"),
                &page(vec![row("20260618", "TQQQ", "02", "1", "100")], "F", "N"),
            )
            .unwrap();
        assert!(!done);
        scan = next;
    }
    let last = broker.fills_since(&tqqq(), scan, Some("M"), &page(vec![], "F", "N"));
    assert!(matches!(last, Err(DomainError::Broker(_))));
}

#[test]
fn rows_that_cannot_be_read_are_errors() {
    let broker = broker();
    for bad in [
        row("2026-06-18", "TQQQ", "02", "1", "100"),
        row("20260618", "TQQQ", "03", "1", "100"),
        row("20260618", "TQQQ", "02", "x", "100"),
        row("20260618", "TQQQ", "02", "1", "0"),
    ] {
        let body = page(vec![bad], "", "");
        assert!(broker.fills_since(&tqqq(), FillScan::new(), None, &body).is_err());
    }
}

#[test]
fn requests_carry_the_credentials() {
    let config = config(KisEnv::Paper);
    let request = broker().quote_request(&tqqq());
    let headers = authed(&config, &request, "tok");
    assert_eq!(field(&headers, "authorization"), "Bearer tok");
    assert_eq!(field(&headers, "appkey"), "key");
    assert_eq!(field(&headers, "appsecret"), "secret");
    let body = token_body(&config);
    assert_eq!(field(&body, "grant_type"), "client_credentials");
}

#[test]
fn cache_files_are_named_by_environment_and_key() {
    let paper = kis_cache_filename(&config(KisEnv::Paper), "token");
    let real = kis_cache_filename(&config(KisEnv::Real), "token");
    assert_ne!(paper, real);
    assert_eq!(paper, kis_cache_filename(&config(KisEnv::Paper), "token"));
    let mut other = config(KisEnv::Paper);
    other.app_key = "another".into();
    assert_ne!(paper, kis_cache_filename(&other, "token"));
    assert!(!paper.contains("secret"));
}

#[test]
fn environments_differ_in_host_and_pace() {
    assert_ne!(KisEnv::Paper.base_url(), KisEnv::Real.base_url());
    assert!(KisEnv::Paper.request_interval_millis() > KisEnv::Real.request_interval_millis());
}

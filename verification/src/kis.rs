//! KIS adapter for overseas stocks: quotes, balance, executions, and orders.
//!
//! Each operation is a request to be sent and a reader for what comes back.

use crate::date::{earlier, Civil, Date};
use crate::decimal::{decimal_parsed, decimal_text, normal_of, rounded_to, Dec};
use crate::error::{DomainError, Failure};
use crate::http::{
    compact, date_in, fields_of, number_in, parse_decimal, parse_price_opt, parse_shares,
    parse_yyyymmdd, price_in, push_field, shares_in, yyyymmdd, Field,
};
use crate::kis_session::{
    check_rt, excg_code_of, law_accepted_orders_keep_their_number, law_more_follows_on_two_letters,
    law_no_page_is_lost, law_zero_alone_is_success, more_follows, order_number, order_result,
    quote_code_of, read_order_number, rt_verdict, says_more, scan_after, FillScan, KisConfig,
    KisConfigView, KisEnv, KisExchange, KisRequest, KisRequestView, Method, ScanStep, ScanView,
    MAX_PAGES,
};
use crate::market::{BrokerId, OrderId, Quote, Side, Ticker};
use crate::money::Money;
use crate::order::{IntentView, OrderIntent, OrderKind};
use crate::paper::holdings_of;
use crate::ports::{BrokerInfo, Capabilities};
use crate::position::{fills_of, Fill, FillView, Holding, HoldingView};
use crate::text::{digits, join2, join3, number_text, same, trim, trimmed, uppercase};
use vstd::prelude::*;

verus! {

/// The balance-inquiry transaction id.
pub open spec fn balance_tr(env: KisEnv) -> Seq<char> {
    match env {
        KisEnv::Real => "TTTS3012R"@,
        KisEnv::Paper => "VTTS3012R"@,
    }
}

/// The order transaction id. The paper sell id is asymmetric with the buy id.
pub open spec fn order_tr(env: KisEnv, side: Side) -> Seq<char> {
    match (env, side) {
        (KisEnv::Real, Side::Buy) => "TTTT1002U"@,
        (KisEnv::Real, Side::Sell) => "TTTT1006U"@,
        (KisEnv::Paper, Side::Buy) => "VTTT1002U"@,
        (KisEnv::Paper, Side::Sell) => "VTTT1001U"@,
    }
}

/// The execution-history transaction id.
pub open spec fn exec_tr(env: KisEnv) -> Seq<char> {
    match env {
        KisEnv::Real => "TTTS3035R"@,
        KisEnv::Paper => "VTTS3035R"@,
    }
}

/// The transaction id of a balance inquiry.
pub fn balance_tr_id(env: KisEnv) -> (r: &'static str)
    ensures
        r@ == balance_tr(env),
{
    match env {
        KisEnv::Real => "TTTS3012R",
        KisEnv::Paper => "VTTS3012R",
    }
}

/// The transaction id of an order, by side and environment.
pub fn order_tr_id(env: KisEnv, side: Side) -> (r: &'static str)
    ensures
        r@ == order_tr(env, side),
        env == KisEnv::Real && side == Side::Buy ==> r@ == "TTTT1002U"@,
        env == KisEnv::Real && side == Side::Sell ==> r@ == "TTTT1006U"@,
        env == KisEnv::Paper && side == Side::Buy ==> r@ == "VTTT1002U"@,
        env == KisEnv::Paper && side == Side::Sell ==> r@ == "VTTT1001U"@,
{
    match (env, side) {
        (KisEnv::Real, Side::Buy) => "TTTT1002U",
        (KisEnv::Real, Side::Sell) => "TTTT1006U",
        (KisEnv::Paper, Side::Buy) => "VTTT1002U",
        (KisEnv::Paper, Side::Sell) => "VTTT1001U",
    }
}

/// The transaction id of an execution inquiry.
pub fn exec_tr_id(env: KisEnv) -> (r: &'static str)
    ensures
        r@ == exec_tr(env),
{
    match env {
        KisEnv::Real => "TTTS3035R",
        KisEnv::Paper => "VTTS3035R",
    }
}

/// What a quote request returns.
#[derive(Debug)]
pub struct KisQuoteResp {
    pub rt_cd: String,
    pub msg1: String,
    pub last: String,
}

/// One lot of a balance.
#[derive(Debug)]
pub struct KisLot {
    pub ovrs_pdno: String,
    pub ovrs_cblc_qty: String,
    pub pchs_avg_pric: String,
}

/// What a balance request returns.
#[derive(Debug)]
pub struct KisBalanceResp {
    pub rt_cd: String,
    pub msg1: String,
    pub output1: Vec<KisLot>,
    pub ovrs_stck_evlu_amt: String,
}

/// What an order request returns.
#[derive(Debug)]
pub struct KisOrderResp {
    pub rt_cd: String,
    pub msg1: String,
    pub krx_fwdg_ord_orgno: String,
    pub odno: String,
}

/// One execution.
#[derive(Debug)]
pub struct KisExecRow {
    pub ord_dt: String,
    pub pdno: String,
    pub sll_buy_dvsn_cd: String,
    pub ft_ccld_qty: String,
    pub ft_ccld_unpr3: String,
}

/// One page of executions.
#[derive(Debug)]
pub struct KisExecResp {
    pub rt_cd: String,
    pub msg1: String,
    pub output: Vec<KisExecRow>,
    pub ctx_area_fk200: String,
    pub ctx_area_nk200: String,
}

/// A quote request.
pub open spec fn quote_call(config: KisConfigView, ticker: Seq<char>) -> KisRequestView {
    KisRequestView {
        method: Method::Get,
        path: "/uapi/overseas-price/v1/quotations/price"@,
        tr_id: "HHDFS00000300"@,
        tr_cont: None,
        fields: seq![
            ("AUTH"@, ""@),
            ("EXCD"@, quote_code_of(config.exchange)),
            ("SYMB"@, ticker),
        ],
    }
}

/// A balance request.
pub open spec fn balance_call(config: KisConfigView) -> KisRequestView {
    KisRequestView {
        method: Method::Get,
        path: "/uapi/overseas-stock/v1/trading/inquire-balance"@,
        tr_id: balance_tr(config.environment),
        tr_cont: None,
        fields: seq![
            ("CANO"@, config.cano),
            ("ACNT_PRDT_CD"@, config.product_code),
            ("OVRS_EXCG_CD"@, excg_code_of(config.exchange)),
            ("TR_CRCY_CD"@, "USD"@),
            ("CTX_AREA_FK200"@, ""@),
            ("CTX_AREA_NK200"@, ""@),
        ],
    }
}

/// The earlier of two days.
pub open spec fn earlier_of(a: Civil, b: Civil) -> Civil {
    if earlier(b, a) {
        b
    } else {
        a
    }
}

/// A request for a page of executions from a day to today. The paper server takes only the
/// empty ticker and exchange that mean all; a real one narrows by both.
pub open spec fn fills_call(
    config: KisConfigView,
    ticker: Seq<char>,
    since: Civil,
    today: Civil,
    scan: ScanView,
) -> KisRequestView {
    let narrow = config.environment == KisEnv::Real;
    KisRequestView {
        method: Method::Get,
        path: "/uapi/overseas-stock/v1/trading/inquire-ccnl"@,
        tr_id: exec_tr(config.environment),
        tr_cont: Some(scan.tr_cont),
        fields: seq![
            ("CANO"@, config.cano),
            ("ACNT_PRDT_CD"@, config.product_code),
            ("PDNO"@, if narrow { ticker } else { ""@ }),
            ("ORD_STRT_DT"@, compact(earlier_of(since, today))),
            ("ORD_END_DT"@, compact(today)),
            ("SLL_BUY_DVSN"@, "00"@),
            ("CCLD_NCCS_DVSN"@, "00"@),
            ("OVRS_EXCG_CD"@, if narrow { excg_code_of(config.exchange) } else { ""@ }),
            ("SORT_SQN"@, "DS"@),
            ("ORD_DT"@, ""@),
            ("ORD_GNO_BRNO"@, ""@),
            ("ODNO"@, ""@),
            ("CTX_AREA_FK200"@, scan.fk),
            ("CTX_AREA_NK200"@, scan.nk),
        ],
    }
}

/// The order division for a kind of order, `None` for a kind that is not supported. The
/// paper server knows no limit-on-close, so such an order is a day limit there.
pub open spec fn division_of(env: KisEnv, kind: OrderKind) -> Option<Seq<char>> {
    match (kind, env) {
        (OrderKind::Limit, _) => Some("00"@),
        (OrderKind::LimitOnClose, KisEnv::Real) => Some("34"@),
        (OrderKind::LimitOnClose, KisEnv::Paper) => Some("00"@),
        (OrderKind::Market, _) => None,
    }
}

/// The text of a limit price in whole cents, `0` without one.
pub open spec fn unit_price_of(limit: Option<Dec>) -> Seq<char> {
    match limit {
        Some(p) => decimal_text(normal_of(rounded_to(p, 2))),
        None => "0"@,
    }
}

/// An order request.
pub open spec fn place_call(
    config: KisConfigView,
    ticker: Seq<char>,
    order: IntentView,
    division: Seq<char>,
) -> KisRequestView {
    KisRequestView {
        method: Method::Post,
        path: "/uapi/overseas-stock/v1/trading/order"@,
        tr_id: order_tr(config.environment, order.side),
        tr_cont: None,
        fields: seq![
            ("CANO"@, config.cano),
            ("ACNT_PRDT_CD"@, config.product_code),
            ("OVRS_EXCG_CD"@, excg_code_of(config.exchange)),
            ("PDNO"@, ticker),
            ("ORD_QTY"@, digits(order.shares as nat)),
            ("OVRS_ORD_UNPR"@, unit_price_of(order.limit)),
            ("ORD_SVR_DVSN_CD"@, "0"@),
            ("ORD_DVSN"@, division),
        ],
    }
}

/// The side of an execution: `02` is a buy and `01` a sell. An unknown code is an error,
/// never a fill on the wrong side.
pub open spec fn side_in(raw: Seq<char>, prefix: Seq<char>) -> Result<Side, Failure> {
    let code = trimmed(raw);
    if code == "02"@ {
        Ok(Side::Buy)
    } else if code == "01"@ {
        Ok(Side::Sell)
    } else {
        Err(Failure::Broker(prefix + " fill had unknown sll_buy_dvsn_cd '"@ + code + "'"@))
    }
}

/// The view of an outcome that is a side.
pub open spec fn side_result(r: Result<Side, DomainError>) -> Result<Side, Failure> {
    match r {
        Ok(s) => Ok(s),
        Err(e) => Err(e@),
    }
}

/// Read the side of an execution.
pub fn parse_side(raw: &str, prefix: &str) -> (r: Result<Side, DomainError>)
    ensures
        side_result(r) == side_in(raw@, prefix@),
{
    let code = trim(raw);
    if same(code, "02") {
        Ok(Side::Buy)
    } else if same(code, "01") {
        Ok(Side::Sell)
    } else {
        let front = join3(prefix, " fill had unknown sll_buy_dvsn_cd '", code);
        Err(DomainError::Broker(join2(front.as_str(), "'")))
    }
}

/// What a price field of an execution gives: there has to be a price.
pub open spec fn exec_price_in(ticker: Seq<char>, raw: Seq<char>) -> Result<Dec, Failure> {
    match price_in(raw) {
        Ok(Some(p)) => Ok(p),
        Ok(None) => Err(
            Failure::Broker("KIS fill for "@ + ticker + " had no execution price"@),
        ),
        Err(e) => Err(e),
    }
}

/// What an execution is to a ticker: nothing if it is of another one or of no shares.
pub open spec fn row_fill(ticker: Seq<char>, row: KisExecRow) -> Result<Option<FillView>, Failure> {
    if trimmed(row.pdno@) != ticker {
        Ok(None)
    } else {
        match shares_in(row.ft_ccld_qty@) {
            Err(e) => Err(e),
            Ok(shares) => if shares == 0 {
                Ok(None)
            } else {
                match exec_price_in(ticker, row.ft_ccld_unpr3@) {
                    Err(e) => Err(e),
                    Ok(price) => match side_in(row.sll_buy_dvsn_cd@, "KIS"@) {
                        Err(e) => Err(e),
                        Ok(side) => match date_in(row.ord_dt@) {
                            Err(e) => Err(e),
                            Ok(at) => Ok(Some(FillView { side, shares, price, at })),
                        },
                    },
                }
            },
        }
    }
}

/// The fills of a ticker among executions, in order; the first error where there is one.
pub open spec fn row_fills(ticker: Seq<char>, rows: Seq<KisExecRow>) -> Result<
    Seq<FillView>,
    Failure,
>
    decreases rows.len(),
{
    if rows.len() == 0 {
        Ok(Seq::empty())
    } else {
        match row_fills(ticker, rows.drop_last()) {
            Err(e) => Err(e),
            Ok(before) => match row_fill(ticker, rows.last()) {
                Err(e) => Err(e),
                Ok(None) => Ok(before),
                Ok(Some(fill)) => Ok(before.push(fill)),
            },
        }
    }
}

/// The view of an outcome that is a list of fills.
pub open spec fn fills_result(r: Result<Vec<Fill>, DomainError>) -> Result<Seq<FillView>, Failure> {
    match r {
        Ok(v) => Ok(fills_of(v@)),
        Err(e) => Err(e@),
    }
}

/// The view of an outcome that may be a fill.
pub open spec fn fill_result(r: Result<Option<Fill>, DomainError>) -> Result<
    Option<FillView>,
    Failure,
> {
    match r {
        Ok(Some(f)) => Ok(Some(f@)),
        Ok(None) => Ok(None),
        Err(e) => Err(e@),
    }
}

/// Read one execution.
pub fn read_row(ticker: &Ticker, row: &KisExecRow) -> (r: Result<Option<Fill>, DomainError>)
    ensures
        fill_result(r) == row_fill(ticker@, *row),
{
    if !same(trim(row.pdno.as_str()), ticker.as_str()) {
        return Ok(None);
    }
    let shares = match parse_shares(row.ft_ccld_qty.as_str()) {
        Ok(s) => s,
        Err(e) => return Err(e),
    };
    if shares.is_zero() {
        return Ok(None);
    }
    let price = match parse_price_opt(row.ft_ccld_unpr3.as_str()) {
        Ok(Some(p)) => p,
        Ok(None) => {
            return Err(
                DomainError::Broker(
                    join3("KIS fill for ", ticker.as_str(), " had no execution price"),
                ),
            );
        },
        Err(e) => return Err(e),
    };
    let side = match parse_side(row.sll_buy_dvsn_cd.as_str(), "KIS") {
        Ok(s) => s,
        Err(e) => return Err(e),
    };
    match parse_yyyymmdd(row.ord_dt.as_str()) {
        Ok(at) => Ok(Some(Fill { side, shares, price, at })),
        Err(e) => Err(e),
    }
}

/// Read the fills of a ticker among executions.
pub fn read_rows(ticker: &Ticker, rows: &[KisExecRow]) -> (r: Result<Vec<Fill>, DomainError>)
    ensures
        fills_result(r) == row_fills(ticker@, rows@),
{
    let mut fills: Vec<Fill> = Vec::new();
    let mut i: usize = 0;
    assert(rows@.take(0) =~= Seq::<KisExecRow>::empty());
    assert(fills_of(fills@) =~= Seq::<FillView>::empty());
    while i < rows.len()
        invariant
            i <= rows.len(),
            row_fills(ticker@, rows@.take(i as int)) == Ok::<Seq<FillView>, Failure>(
                fills_of(fills@),
            ),
        decreases rows.len() - i,
    {
        proof {
            assert(rows@.take(i + 1).drop_last() =~= rows@.take(i as int));
            assert(rows@.take(i + 1).last() == rows[i as int]);
        }
        match read_row(ticker, &rows[i]) {
            Ok(Some(fill)) => {
                let ghost before = fills_of(fills@);
                fills.push(fill);
                assert(fills_of(fills@) =~= before.push(fill@));
            },
            Ok(None) => {},
            Err(e) => {
                proof {
                    lemma_rows_error(ticker@, rows@, i + 1, e@);
                }
                return Err(e);
            },
        }
        i += 1;
    }
    assert(rows@.take(i as int) =~= rows@);
    Ok(fills)
}

proof fn lemma_rows_error(ticker: Seq<char>, rows: Seq<KisExecRow>, n: int, e: Failure)
    requires
        0 <= n <= rows.len(),
        row_fills(ticker, rows.take(n)) == Err::<Seq<FillView>, Failure>(e),
    ensures
        row_fills(ticker, rows) == Err::<Seq<FillView>, Failure>(e),
    decreases rows.len() - n,
{
    if n == rows.len() {
        assert(rows.take(n) =~= rows);
    } else {
        assert(rows.take(n + 1).drop_last() =~= rows.take(n));
        lemma_rows_error(ticker, rows, n + 1, e);
    }
}

/// What a lot of a balance is: nothing if it has no shares.
pub open spec fn lot_holding(symbol: Seq<char>, quantity: Seq<char>, average: Seq<char>) -> Result<
    Option<HoldingView>,
    Failure,
> {
    match shares_in(quantity) {
        Err(e) => Err(e),
        Ok(shares) => if shares == 0 {
            Ok(None)
        } else {
            match price_in(average) {
                Err(e) => Err(e),
                Ok(avg_price) => Ok(
                    Some(HoldingView { ticker: uppercase(trimmed(symbol)), shares, avg_price }),
                ),
            }
        },
    }
}

/// The view of an outcome that may be a holding.
pub open spec fn holding_result(r: Result<Option<Holding>, DomainError>) -> Result<
    Option<HoldingView>,
    Failure,
> {
    match r {
        Ok(Some(h)) => Ok(Some(h@)),
        Ok(None) => Ok(None),
        Err(e) => Err(e@),
    }
}

/// The view of an outcome that is a list of holdings.
pub open spec fn holdings_result(r: Result<Vec<Holding>, DomainError>) -> Result<
    Seq<HoldingView>,
    Failure,
> {
    match r {
        Ok(v) => Ok(holdings_of(v@)),
        Err(e) => Err(e@),
    }
}

/// Read a lot of a balance.
pub fn read_lot(symbol: &str, quantity: &str, average: &str) -> (r: Result<
    Option<Holding>,
    DomainError,
>)
    ensures
        holding_result(r) == lot_holding(symbol@, quantity@, average@),
{
    let shares = match parse_shares(quantity) {
        Ok(s) => s,
        Err(e) => return Err(e),
    };
    if shares.is_zero() {
        return Ok(None);
    }
    match parse_price_opt(average) {
        Ok(avg_price) => Ok(Some(Holding { ticker: Ticker::new(symbol), shares, avg_price })),
        Err(e) => Err(e),
    }
}

/// The holdings among lots, in order; the first error where there is one.
pub open spec fn lot_holdings(lots: Seq<KisLot>) -> Result<Seq<HoldingView>, Failure>
    decreases lots.len(),
{
    if lots.len() == 0 {
        Ok(Seq::empty())
    } else {
        let lot = lots.last();
        match lot_holdings(lots.drop_last()) {
            Err(e) => Err(e),
            Ok(before) => match lot_holding(
                lot.ovrs_pdno@,
                lot.ovrs_cblc_qty@,
                lot.pchs_avg_pric@,
            ) {
                Err(e) => Err(e),
                Ok(None) => Ok(before),
                Ok(Some(h)) => Ok(before.push(h)),
            },
        }
    }
}

proof fn lemma_lots_error(lots: Seq<KisLot>, n: int, e: Failure)
    requires
        0 <= n <= lots.len(),
        lot_holdings(lots.take(n)) == Err::<Seq<HoldingView>, Failure>(e),
    ensures
        lot_holdings(lots) == Err::<Seq<HoldingView>, Failure>(e),
    decreases lots.len() - n,
{
    if n == lots.len() {
        assert(lots.take(n) =~= lots);
    } else {
        assert(lots.take(n + 1).drop_last() =~= lots.take(n));
        lemma_lots_error(lots, n + 1, e);
    }
}

/// What a quote comes to: the price, or what is wrong.
pub open spec fn quoted(
    op: Seq<char>,
    ticker: Seq<char>,
    rt_cd: Seq<char>,
    msg1: Seq<char>,
    last: Seq<char>,
) -> Result<Dec, Failure> {
    match rt_verdict(op, rt_cd, msg1) {
        Err(e) => Err(e),
        Ok(()) => match price_in(last) {
            Err(e) => Err(e),
            Ok(None) => Err(Failure::Broker("KIS returned no price for "@ + ticker)),
            Ok(Some(p)) => Ok(p),
        },
    }
}

/// Whether an outcome is a quote of a ticker on a day, or the error that is due.
pub open spec fn is_quote(
    r: Result<Quote, DomainError>,
    ticker: Seq<char>,
    as_of: Civil,
    due: Result<Dec, Failure>,
) -> bool {
    match r {
        Ok(quote) => due == Ok::<Dec, Failure>(quote.price@) && quote.ticker@ == ticker
            && quote.as_of@ == as_of,
        Err(e) => due == Err::<Dec, Failure>(e@),
    }
}

/// Read a quote.
pub fn read_quote(
    op: &str,
    ticker: &Ticker,
    as_of: Date,
    rt_cd: &str,
    msg1: &str,
    last: &str,
) -> (r: Result<Quote, DomainError>)
    ensures
        is_quote(r, ticker@, as_of@, quoted(op@, ticker@, rt_cd@, msg1@, last@)),
{
    match check_rt(op, rt_cd, msg1) {
        Ok(()) => {},
        Err(e) => return Err(e),
    }
    match parse_price_opt(last) {
        Ok(Some(price)) => Ok(Quote { ticker: ticker.clone(), price, as_of }),
        Ok(None) => Err(
            DomainError::Broker(join2("KIS returned no price for ", ticker.as_str())),
        ),
        Err(e) => Err(e),
    }
}

/// What an answered order comes to: its identifier, or what is wrong.
pub open spec fn ordered(
    op: Seq<char>,
    rt_cd: Seq<char>,
    msg1: Seq<char>,
    org: Seq<char>,
    number: Seq<char>,
) -> Result<Seq<char>, Failure> {
    match rt_verdict(op, rt_cd, msg1) {
        Err(e) => Err(e),
        Ok(()) => order_number(org, number),
    }
}

/// Read the answer to an order.
pub fn read_order(op: &str, rt_cd: &str, msg1: &str, org: &str, number: &str) -> (r: Result<
    OrderId,
    DomainError,
>)
    ensures
        order_result(r) == ordered(op@, rt_cd@, msg1@, org@, number@),
{
    match check_rt(op, rt_cd, msg1) {
        Ok(()) => read_order_number(org, number),
        Err(e) => Err(e),
    }
}

/// The view of an outcome that is an amount.
pub open spec fn money_result(r: Result<Money, DomainError>) -> Result<Dec, Failure> {
    match r {
        Ok(m) => Ok(m@),
        Err(e) => Err(e@),
    }
}

/// The error for a scan that reached the page cap.
pub open spec fn too_many_pages(op: Seq<char>, ticker: Seq<char>) -> Failure {
    Failure::Broker(
        "KIS "@ + op + " exceeded 50 pages for "@ + ticker + "; narrow the window"@,
    )
}

/// What a page of executions brings a scan to.
pub open spec fn page_taken(
    op: Seq<char>,
    ticker: Seq<char>,
    scan: ScanView,
    fills: Result<Seq<FillView>, Failure>,
    more: bool,
    fk: Seq<char>,
    nk: Seq<char>,
) -> Result<(ScanView, bool), Failure> {
    match fills {
        Err(e) => Err(e),
        Ok(page) => {
            let (after, step) = scan_after(scan, page, more, fk, nk);
            match step {
                ScanStep::Done => Ok((after, true)),
                ScanStep::NextPage => Ok((after, false)),
                ScanStep::TooManyPages => Err(too_many_pages(op, ticker)),
            }
        },
    }
}

/// The view of an outcome that is a scan and whether it is done.
pub open spec fn scan_result(r: Result<(FillScan, bool), DomainError>) -> Result<
    (ScanView, bool),
    Failure,
> {
    match r {
        Ok((scan, done)) => Ok((scan@, done)),
        Err(e) => Err(e@),
    }
}

/// Take a page of executions into a scan.
pub fn take_fills(
    op: &str,
    ticker: &Ticker,
    scan: FillScan,
    page: Vec<Fill>,
    more: bool,
    fk: &str,
    nk: &str,
) -> (r: Result<(FillScan, bool), DomainError>)
    requires
        scan@.pages < MAX_PAGES,
    ensures
        scan_result(r) == page_taken(
            op@,
            ticker@,
            scan@,
            Ok(fills_of(page@)),
            more,
            fk@,
            nk@,
        ),
{
    let (after, step) = scan.take_page(page, more, fk, nk);
    match step {
        ScanStep::Done => Ok((after, true)),
        ScanStep::NextPage => Ok((after, false)),
        ScanStep::TooManyPages => {
            let front = join3("KIS ", op, " exceeded 50 pages for ");
            Err(
                DomainError::Broker(
                    join3(front.as_str(), ticker.as_str(), "; narrow the window"),
                ),
            )
        },
    }
}

/// A KIS adapter for overseas stocks.
#[derive(Debug)]
pub struct KisBroker {
    config: KisConfig,
}

impl View for KisBroker {
    type V = KisConfigView;

    closed spec fn view(&self) -> KisConfigView {
        self.config@
    }
}

impl KisBroker {
    pub fn new(config: KisConfig) -> (r: KisBroker)
        ensures
            r@ == config@,
    {
        KisBroker { config }
    }

    /// The configuration of the account.
    pub fn config(&self) -> (r: &KisConfig)
        ensures
            r@ == self@,
    {
        &self.config
    }

    /// The request for a quote.
    pub fn quote_request(&self, ticker: &Ticker) -> (r: KisRequest)
        ensures
            r@ == quote_call(self@, ticker@),
    {
        let mut fields: Vec<Field> = Vec::new();
        assert(fields_of(fields@) =~= Seq::<(Seq<char>, Seq<char>)>::empty());
        push_field(&mut fields, "AUTH", "");
        push_field(&mut fields, "EXCD", self.config.exchange.quote_code());
        push_field(&mut fields, "SYMB", ticker.as_str());
        let r = KisRequest {
            method: Method::Get,
            path: "/uapi/overseas-price/v1/quotations/price",
            tr_id: "HHDFS00000300",
            tr_cont: None,
            fields,
        };
        assert(r@.fields =~= quote_call(self@, ticker@).fields);
        r
    }

    /// Read the answer to a quote request.
    pub fn quote(&self, ticker: &Ticker, as_of: Date, body: &KisQuoteResp) -> (r: Result<
        Quote,
        DomainError,
    >)
        ensures
            is_quote(
                r,
                ticker@,
                as_of@,
                quoted("quote"@, ticker@, body.rt_cd@, body.msg1@, body.last@),
            ),
    {
        read_quote(
            "quote",
            ticker,
            as_of,
            body.rt_cd.as_str(),
            body.msg1.as_str(),
            body.last.as_str(),
        )
    }

    /// The request for the balance.
    pub fn balance_request(&self) -> (r: KisRequest)
        ensures
            r@ == balance_call(self@),
    {
        let mut fields: Vec<Field> = Vec::new();
        assert(fields_of(fields@) =~= Seq::<(Seq<char>, Seq<char>)>::empty());
        push_field(&mut fields, "CANO", self.config.cano.as_str());
        push_field(&mut fields, "ACNT_PRDT_CD", self.config.product_code.as_str());
        push_field(&mut fields, "OVRS_EXCG_CD", self.config.exchange.excg_code_4());
        push_field(&mut fields, "TR_CRCY_CD", "USD");
        push_field(&mut fields, "CTX_AREA_FK200", "");
        push_field(&mut fields, "CTX_AREA_NK200", "");
        let r = KisRequest {
            method: Method::Get,
            path: "/uapi/overseas-stock/v1/trading/inquire-balance",
            tr_id: balance_tr_id(self.config.environment),
            tr_cont: None,
            fields,
        };
        assert(r@.fields =~= balance_call(self@).fields);
        r
    }

    /// Read the holdings off a balance. Lots without shares are left out.
    pub fn holdings(&self, body: &KisBalanceResp) -> (r: Result<Vec<Holding>, DomainError>)
        ensures
            holdings_result(r) == match rt_verdict("balance"@, body.rt_cd@, body.msg1@) {
                Err(e) => Err(e),
                Ok(()) => lot_holdings(body.output1@),
            },
            r is Ok ==> body.rt_cd@ == seq!['0'],
    {
        proof {
            law_zero_alone_is_success("balance"@, body.rt_cd@, body.msg1@);
        }
        match check_rt("balance", body.rt_cd.as_str(), body.msg1.as_str()) {
            Ok(()) => {},
            Err(e) => return Err(e),
        }
        let ghost lots = body.output1@;
        let mut holdings: Vec<Holding> = Vec::new();
        let mut i: usize = 0;
        assert(lots.take(0) =~= Seq::<KisLot>::empty());
        assert(holdings_of(holdings@) =~= Seq::<HoldingView>::empty());
        while i < body.output1.len()
            invariant
                i <= body.output1.len(),
                lots == body.output1@,
                rt_verdict("balance"@, body.rt_cd@, body.msg1@) is Ok,
                lot_holdings(lots.take(i as int)) == Ok::<Seq<HoldingView>, Failure>(
                    holdings_of(holdings@),
                ),
            decreases body.output1.len() - i,
        {
            proof {
                assert(lots.take(i + 1).drop_last() =~= lots.take(i as int));
                assert(lots.take(i + 1).last() == body.output1[i as int]);
            }
            let lot = &body.output1[i];
            match read_lot(
                lot.ovrs_pdno.as_str(),
                lot.ovrs_cblc_qty.as_str(),
                lot.pchs_avg_pric.as_str(),
            ) {
                Ok(Some(h)) => {
                    let ghost before = holdings_of(holdings@);
                    let ghost new = h@;
                    holdings.push(h);
                    assert(holdings_of(holdings@) =~= before.push(new));
                },
                Ok(None) => {},
                Err(e) => {
                    proof {
                        lemma_lots_error(lots, i + 1, e@);
                    }
                    return Err(e);
                },
            }
            i += 1;
        }
        assert(lots.take(i as int) =~= lots);
        Ok(holdings)
    }

    /// Read the balance: there is no clean deposit figure, so the evaluation of all holdings.
    pub fn balance(&self, body: &KisBalanceResp) -> (r: Result<Money, DomainError>)
        ensures
            money_result(r) == match rt_verdict("balance"@, body.rt_cd@, body.msg1@) {
                Err(e) => Err(e),
                Ok(()) => number_in(body.ovrs_stck_evlu_amt@),
            },
            r is Ok <==> body.rt_cd@ == seq!['0'] && decimal_parsed(
                trimmed(body.ovrs_stck_evlu_amt@),
            ) is Ok,
            r matches Ok(m) ==> decimal_parsed(trimmed(body.ovrs_stck_evlu_amt@)) == Ok::<
                Dec,
                Seq<char>,
            >(m@),
    {
        proof {
            law_zero_alone_is_success("balance"@, body.rt_cd@, body.msg1@);
        }
        match check_rt("balance", body.rt_cd.as_str(), body.msg1.as_str()) {
            Ok(()) => {},
            Err(e) => return Err(e),
        }
        match parse_decimal(body.ovrs_stck_evlu_amt.as_str()) {
            Ok(d) => Ok(Money::new(d)),
            Err(e) => Err(e),
        }
    }

    /// The request for the next page of a ticker's executions. A start after today is taken
    /// as today.
    pub fn fills_request(&self, ticker: &Ticker, since: Date, today: Date, scan: &FillScan) -> (r:
        KisRequest)
        ensures
            r@ == fills_call(self@, ticker@, since@, today@, scan@),
    {
        let start = if today.is_before(&since) {
            yyyymmdd(today)
        } else {
            yyyymmdd(since)
        };
        let end = yyyymmdd(today);
        let (pdno, excg) = match self.config.environment {
            KisEnv::Real => (ticker.as_str(), self.config.exchange.excg_code_4()),
            KisEnv::Paper => ("", ""),
        };
        let mut fields: Vec<Field> = Vec::new();
        assert(fields_of(fields@) =~= Seq::<(Seq<char>, Seq<char>)>::empty());
        push_field(&mut fields, "CANO", self.config.cano.as_str());
        push_field(&mut fields, "ACNT_PRDT_CD", self.config.product_code.as_str());
        push_field(&mut fields, "PDNO", pdno);
        push_field(&mut fields, "ORD_STRT_DT", start.as_str());
        push_field(&mut fields, "ORD_END_DT", end.as_str());
        push_field(&mut fields, "SLL_BUY_DVSN", "00");
        push_field(&mut fields, "CCLD_NCCS_DVSN", "00");
        push_field(&mut fields, "OVRS_EXCG_CD", excg);
        push_field(&mut fields, "SORT_SQN", "DS");
        push_field(&mut fields, "ORD_DT", "");
        push_field(&mut fields, "ORD_GNO_BRNO", "");
        push_field(&mut fields, "ODNO", "");
        push_field(&mut fields, "CTX_AREA_FK200", scan.fk());
        push_field(&mut fields, "CTX_AREA_NK200", scan.nk());
        let r = KisRequest {
            method: Method::Get,
            path: "/uapi/overseas-stock/v1/trading/inquire-ccnl",
            tr_id: exec_tr_id(self.config.environment),
            tr_cont: Some(scan.tr_cont().to_owned()),
            fields,
        };
        assert(r@.fields =~= fills_call(self@, ticker@, since@, today@, scan@).fields);
        r
    }

    /// Take a page of executions: the scan after it, and whether it is complete. `header` is
    /// the continuation header of the answer.
    pub fn fills_since(
        &self,
        ticker: &Ticker,
        scan: FillScan,
        header: Option<&str>,
        body: &KisExecResp,
    ) -> (r: Result<(FillScan, bool), DomainError>)
        requires
            scan@.pages < MAX_PAGES,
        ensures
            scan_result(r) == match rt_verdict("inquire-ccnl"@, body.rt_cd@, body.msg1@) {
                Err(e) => Err(e),
                Ok(()) => page_taken(
                    "inquire-ccnl"@,
                    ticker@,
                    scan@,
                    row_fills(ticker@, body.output@),
                    says_more(
                        match header {
                            Some(h) => Some(h@),
                            None => None,
                        },
                    ),
                    body.ctx_area_fk200@,
                    body.ctx_area_nk200@,
                ),
            },
            r is Ok ==> body.rt_cd@ == seq!['0'] && row_fills(ticker@, body.output@) is Ok,
            r matches Ok((after, done)) ==> after@.fills == scan@.fills + row_fills(
                ticker@,
                body.output@,
            )->Ok_0 && (done <==> !(header is Some && (header->0@ == seq!['M'] || header->0@
                == seq!['F']))),
    {
        proof {
            let more = match header {
                Some(h) => Some(h@),
                None => None,
            };
            law_zero_alone_is_success("inquire-ccnl"@, body.rt_cd@, body.msg1@);
            law_more_follows_on_two_letters(more);
            if row_fills(ticker@, body.output@) is Ok {
                law_no_page_is_lost(
                    scan@,
                    row_fills(ticker@, body.output@)->Ok_0,
                    says_more(more),
                    body.ctx_area_fk200@,
                    body.ctx_area_nk200@,
                );
            }
        }
        match check_rt("inquire-ccnl", body.rt_cd.as_str(), body.msg1.as_str()) {
            Ok(()) => {},
            Err(e) => return Err(e),
        }
        let page = match read_rows(ticker, &body.output) {
            Ok(page) => page,
            Err(e) => return Err(e),
        };
        take_fills(
            "inquire-ccnl",
            ticker,
            scan,
            page,
            more_follows(header),
            body.ctx_area_fk200.as_str(),
            body.ctx_area_nk200.as_str(),
        )
    }

    /// The order division for a kind of order.
    pub fn ord_dvsn(&self, kind: OrderKind) -> (r: Result<&'static str, DomainError>)
        ensures
            match r {
                Ok(code) => division_of(self@.environment, kind) == Some(code@),
                Err(e) => division_of(self@.environment, kind) is None && e@
                    == market_orders_unsupported(),
            },
    {
        match (kind, self.config.environment) {
            (OrderKind::Limit, _) => Ok("00"),
            (OrderKind::LimitOnClose, KisEnv::Real) => Ok("34"),
            (OrderKind::LimitOnClose, KisEnv::Paper) => Ok("00"),
            (OrderKind::Market, _) => Err(
                DomainError::Unsupported(
                    "KIS US market orders are not supported by drip (the strategy uses LOC/limit)"
                        .to_owned(),
                ),
            ),
        }
    }

    /// The request for an order. Prices trade in whole cents, so a limit is rounded to two
    /// decimals.
    pub fn place_request(&self, ticker: &Ticker, order: &OrderIntent) -> (r: Result<
        KisRequest,
        DomainError,
    >)
        ensures
            match r {
                Ok(request) => division_of(self@.environment, order@.kind) matches Some(code)
                    && request@ == place_call(self@, ticker@, order@, code),
                Err(e) => division_of(self@.environment, order@.kind) is None && e@
                    == market_orders_unsupported(),
            },
    {
        let ord_dvsn = match self.ord_dvsn(order.kind) {
            Ok(code) => code,
            Err(e) => return Err(e),
        };
        let unit_price = match order.limit {
            Some(price) => price.value().round_dp(2).normalize().to_text(),
            None => "0".to_owned(),
        };
        let quantity = number_text(order.shares.get() as u64);
        let mut fields: Vec<Field> = Vec::new();
        assert(fields_of(fields@) =~= Seq::<(Seq<char>, Seq<char>)>::empty());
        push_field(&mut fields, "CANO", self.config.cano.as_str());
        push_field(&mut fields, "ACNT_PRDT_CD", self.config.product_code.as_str());
        push_field(&mut fields, "OVRS_EXCG_CD", self.config.exchange.excg_code_4());
        push_field(&mut fields, "PDNO", ticker.as_str());
        push_field(&mut fields, "ORD_QTY", quantity.as_str());
        push_field(&mut fields, "OVRS_ORD_UNPR", unit_price.as_str());
        push_field(&mut fields, "ORD_SVR_DVSN_CD", "0");
        push_field(&mut fields, "ORD_DVSN", ord_dvsn);
        let r = KisRequest {
            method: Method::Post,
            path: "/uapi/overseas-stock/v1/trading/order",
            tr_id: order_tr_id(self.config.environment, order.side),
            tr_cont: None,
            fields,
        };
        assert(r@.fields =~= place_call(self@, ticker@, order@, ord_dvsn@).fields);
        Ok(r)
    }

    /// Read the answer to an order.
    pub fn place(&self, body: &KisOrderResp) -> (r: Result<OrderId, DomainError>)
        ensures
            order_result(r) == ordered(
                "order"@,
                body.rt_cd@,
                body.msg1@,
                body.krx_fwdg_ord_orgno@,
                body.odno@,
            ),
            r is Ok <==> body.rt_cd@ == seq!['0'] && trimmed(body.odno@).len() > 0,
    {
        proof {
            law_an_order_is_placed_on_success_alone(
                "order"@,
                body.rt_cd@,
                body.msg1@,
                body.krx_fwdg_ord_orgno@,
                body.odno@,
            );
        }
        read_order(
            "order",
            body.rt_cd.as_str(),
            body.msg1.as_str(),
            body.krx_fwdg_ord_orgno.as_str(),
            body.odno.as_str(),
        )
    }

    /// Orders are not cancelled: the daily tick places idempotent orders only.
    pub fn cancel(&self, _id: &OrderId) -> (r: Result<(), DomainError>)
        ensures
            r matches Err(e) && e@ == Failure::Unsupported(
                "KIS order cancellation is not implemented in M2.1 — the daily tick places idempotent LOC/limit orders and never cancels"@,
            ),
    {
        Err(
            DomainError::Unsupported(
                "KIS order cancellation is not implemented in M2.1 — the daily tick places idempotent LOC/limit orders and never cancels".to_owned(),
            ),
        )
    }
}

/// The error for a market order.
pub open spec fn market_orders_unsupported() -> Failure {
    Failure::Unsupported(
        "KIS US market orders are not supported by drip (the strategy uses LOC/limit)"@,
    )
}

impl BrokerInfo for KisBroker {
    open spec fn broker(&self) -> BrokerId {
        BrokerId::Kis
    }

    open spec fn abilities(&self) -> Capabilities {
        Capabilities {
            realtime_quotes: false,
            paper_account: self@.environment == KisEnv::Paper,
            order_placement: true,
            overseas: true,
        }
    }

    fn id(&self) -> (r: BrokerId) {
        BrokerId::Kis
    }

    fn capabilities(&self) -> (r: Capabilities) {
        Capabilities {
            realtime_quotes: false,
            paper_account: self.config.environment == KisEnv::Paper,
            order_placement: true,
            overseas: true,
        }
    }
}

/// The four ids of an order are the literal ones. In each environment a sell has another id
/// than a buy, and no id serves both environments.
pub proof fn law_order_ids_tell_sides_and_environments_apart(env: KisEnv, side: Side)
    ensures
        order_tr(KisEnv::Real, Side::Buy) == "TTTT1002U"@,
        order_tr(KisEnv::Real, Side::Sell) == "TTTT1006U"@,
        order_tr(KisEnv::Paper, Side::Buy) == "VTTT1002U"@,
        order_tr(KisEnv::Paper, Side::Sell) == "VTTT1001U"@,
        order_tr(env, Side::Buy) != order_tr(env, Side::Sell),
        order_tr(KisEnv::Real, side) != order_tr(KisEnv::Paper, side),
        env == KisEnv::Real <==> order_tr(env, side)[0] == 'T',
        env == KisEnv::Paper <==> order_tr(env, side)[0] == 'V',
{
    reveal_strlit("TTTT1002U");
    reveal_strlit("TTTT1006U");
    reveal_strlit("VTTT1002U");
    reveal_strlit("VTTT1001U");
    assert(order_tr(KisEnv::Real, Side::Buy)[7] == '2');
    assert(order_tr(KisEnv::Real, Side::Sell)[7] == '6');
    assert(order_tr(KisEnv::Paper, Side::Buy)[7] == '2');
    assert(order_tr(KisEnv::Paper, Side::Sell)[7] == '1');
    assert(order_tr(KisEnv::Real, side)[0] == 'T');
    assert(order_tr(KisEnv::Paper, side)[0] == 'V');
}

/// The ids of an inquiry are the literal ones; those of the balance and of the executions
/// differ, and no id serves both environments.
pub proof fn law_inquiry_ids_are_told_apart(a: KisEnv, b: KisEnv)
    ensures
        balance_tr(KisEnv::Real) == "TTTS3012R"@,
        balance_tr(KisEnv::Paper) == "VTTS3012R"@,
        exec_tr(KisEnv::Real) == "TTTS3035R"@,
        exec_tr(KisEnv::Paper) == "VTTS3035R"@,
        balance_tr(a) != exec_tr(b),
        a != b ==> balance_tr(a) != balance_tr(b) && exec_tr(a) != exec_tr(b),
{
    reveal_strlit("TTTS3012R");
    reveal_strlit("VTTS3012R");
    reveal_strlit("TTTS3035R");
    reveal_strlit("VTTS3035R");
    assert(balance_tr(a)[6] == '1');
    assert(exec_tr(b)[6] == '3');
    assert(balance_tr(a)[0] == if a == KisEnv::Real { 'T' } else { 'V' });
    assert(balance_tr(b)[0] == if b == KisEnv::Real { 'T' } else { 'V' });
    assert(exec_tr(a)[0] == if a == KisEnv::Real { 'T' } else { 'V' });
    assert(exec_tr(b)[0] == if b == KisEnv::Real { 'T' } else { 'V' });
}

/// A quote asks for the ticker on the exchange of the account.
pub proof fn law_a_quote_names_ticker_and_exchange(config: KisConfigView, ticker: Seq<char>)
    ensures
        quote_call(config, ticker).method == Method::Get,
        quote_call(config, ticker).path == "/uapi/overseas-price/v1/quotations/price"@,
        quote_call(config, ticker).tr_id == "HHDFS00000300"@,
        quote_call(config, ticker).tr_cont is None,
        quote_call(config, ticker).fields.len() == 3,
        quote_call(config, ticker).fields[0] == ("AUTH"@, Seq::<char>::empty()),
        quote_call(config, ticker).fields[1].0 == "EXCD"@,
        config.exchange == KisExchange::Nasdaq ==> quote_call(config, ticker).fields[1].1
            == "NAS"@,
        config.exchange == KisExchange::Nyse ==> quote_call(config, ticker).fields[1].1 == "NYS"@,
        config.exchange == KisExchange::Amex ==> quote_call(config, ticker).fields[1].1 == "AMS"@,
        quote_call(config, ticker).fields[2] == ("SYMB"@, ticker),
{
    reveal_strlit("");
    assert(""@ =~= Seq::<char>::empty());
}

/// A balance is that of the account, on its exchange, in dollars.
pub proof fn law_a_balance_is_that_of_the_account(config: KisConfigView)
    ensures
        balance_call(config).method == Method::Get,
        balance_call(config).path == "/uapi/overseas-stock/v1/trading/inquire-balance"@,
        config.environment == KisEnv::Real ==> balance_call(config).tr_id == "TTTS3012R"@,
        config.environment == KisEnv::Paper ==> balance_call(config).tr_id == "VTTS3012R"@,
        balance_call(config).tr_cont is None,
        balance_call(config).fields.len() == 6,
        balance_call(config).fields[0] == ("CANO"@, config.cano),
        balance_call(config).fields[1] == ("ACNT_PRDT_CD"@, config.product_code),
        balance_call(config).fields[2].0 == "OVRS_EXCG_CD"@,
        config.exchange == KisExchange::Nasdaq ==> balance_call(config).fields[2].1 == "NASD"@,
        config.exchange == KisExchange::Nyse ==> balance_call(config).fields[2].1 == "NYSE"@,
        config.exchange == KisExchange::Amex ==> balance_call(config).fields[2].1 == "AMEX"@,
        balance_call(config).fields[3] == ("TR_CRCY_CD"@, "USD"@),
        balance_call(config).fields[4] == ("CTX_AREA_FK200"@, Seq::<char>::empty()),
        balance_call(config).fields[5] == ("CTX_AREA_NK200"@, Seq::<char>::empty()),
{
    reveal_strlit("");
    assert(""@ =~= Seq::<char>::empty());
}

/// The executions asked for are those of the account up to today, from a start that is never
/// after it, on both sides, with the keys of the scan. A real account asks for its ticker on
/// its exchange; the paper one for all.
pub proof fn law_executions_are_asked_for_up_to_today(
    config: KisConfigView,
    ticker: Seq<char>,
    since: Civil,
    today: Civil,
    scan: ScanView,
)
    ensures
        ({
            let call = fills_call(config, ticker, since, today, scan);
            let all = Seq::<char>::empty();
            &&& call.method == Method::Get
            &&& call.path == "/uapi/overseas-stock/v1/trading/inquire-ccnl"@
            &&& config.environment == KisEnv::Real ==> call.tr_id == "TTTS3035R"@
            &&& config.environment == KisEnv::Paper ==> call.tr_id == "VTTS3035R"@
            &&& call.tr_cont == Some(scan.tr_cont)
            &&& call.fields.len() == 14
            &&& call.fields[0] == ("CANO"@, config.cano)
            &&& call.fields[1] == ("ACNT_PRDT_CD"@, config.product_code)
            &&& config.environment == KisEnv::Real ==> call.fields[2] == ("PDNO"@, ticker)
            &&& config.environment == KisEnv::Paper ==> call.fields[2] == ("PDNO"@, all)
            &&& !earlier(today, since) ==> call.fields[3] == ("ORD_STRT_DT"@, compact(since))
            &&& earlier(today, since) ==> call.fields[3] == ("ORD_STRT_DT"@, compact(today))
            &&& call.fields[4] == ("ORD_END_DT"@, compact(today))
            &&& call.fields[5] == ("SLL_BUY_DVSN"@, "00"@)
            &&& call.fields[6] == ("CCLD_NCCS_DVSN"@, "00"@)
            &&& call.fields[7].0 == "OVRS_EXCG_CD"@
            &&& config.environment == KisEnv::Paper ==> call.fields[7].1 == all
            &&& config.environment == KisEnv::Real && config.exchange == KisExchange::Nasdaq
                ==> call.fields[7].1 == "NASD"@
            &&& config.environment == KisEnv::Real && config.exchange == KisExchange::Nyse
                ==> call.fields[7].1 == "NYSE"@
            &&& config.environment == KisEnv::Real && config.exchange == KisExchange::Amex
                ==> call.fields[7].1 == "AMEX"@
            &&& call.fields[8] == ("SORT_SQN"@, "DS"@)
            &&& call.fields[9] == ("ORD_DT"@, all)
            &&& call.fields[10] == ("ORD_GNO_BRNO"@, all)
            &&& call.fields[11] == ("ODNO"@, all)
            &&& call.fields[12] == ("CTX_AREA_FK200"@, scan.fk)
            &&& call.fields[13] == ("CTX_AREA_NK200"@, scan.nk)
        }),
{
    reveal_strlit("");
    assert(""@ =~= Seq::<char>::empty());
}

/// A limit order is division `00` everywhere; a limit on close is `34` on a real account and
/// a plain limit on paper; a market order is not supported anywhere.
pub proof fn law_divisions_by_kind_and_environment(env: KisEnv)
    ensures
        division_of(env, OrderKind::Limit) == Some("00"@),
        division_of(KisEnv::Real, OrderKind::LimitOnClose) == Some("34"@),
        division_of(KisEnv::Paper, OrderKind::LimitOnClose) == division_of(
            KisEnv::Paper,
            OrderKind::Limit,
        ),
        division_of(KisEnv::Real, OrderKind::LimitOnClose) != division_of(
            KisEnv::Real,
            OrderKind::Limit,
        ),
        division_of(env, OrderKind::Market) is None,
{
    reveal_strlit("00");
    reveal_strlit("34");
    assert("00"@[0] == '0');
    assert("34"@[0] == '3');
}

/// An order request is sent for the side of the order in the environment of the account, and
/// carries its ticker, its shares, its limit in cents and its division.
pub proof fn law_an_order_is_sent_as_it_was_made(
    config: KisConfigView,
    ticker: Seq<char>,
    order: IntentView,
    division: Seq<char>,
)
    ensures
        ({
            let call = place_call(config, ticker, order, division);
            &&& call.method == Method::Post
            &&& call.path == "/uapi/overseas-stock/v1/trading/order"@
            &&& config.environment == KisEnv::Real && order.side == Side::Buy ==> call.tr_id
                == "TTTT1002U"@
            &&& config.environment == KisEnv::Real && order.side == Side::Sell ==> call.tr_id
                == "TTTT1006U"@
            &&& config.environment == KisEnv::Paper && order.side == Side::Buy ==> call.tr_id
                == "VTTT1002U"@
            &&& config.environment == KisEnv::Paper && order.side == Side::Sell ==> call.tr_id
                == "VTTT1001U"@
            &&& call.tr_cont is None
            &&& call.fields.len() == 8
            &&& call.fields[0] == ("CANO"@, config.cano)
            &&& call.fields[1] == ("ACNT_PRDT_CD"@, config.product_code)
            &&& call.fields[2].0 == "OVRS_EXCG_CD"@
            &&& config.exchange == KisExchange::Nasdaq ==> call.fields[2].1 == "NASD"@
            &&& config.exchange == KisExchange::Nyse ==> call.fields[2].1 == "NYSE"@
            &&& config.exchange == KisExchange::Amex ==> call.fields[2].1 == "AMEX"@
            &&& call.fields[3] == ("PDNO"@, ticker)
            &&& call.fields[4] == ("ORD_QTY"@, digits(order.shares as nat))
            &&& call.fields[5].0 == "OVRS_ORD_UNPR"@
            &&& order.limit is None ==> call.fields[5].1 == seq!['0']
            &&& order.limit is Some ==> call.fields[5].1 == decimal_text(
                normal_of(rounded_to(order.limit->0, 2)),
            )
            &&& call.fields[6] == ("ORD_SVR_DVSN_CD"@, "0"@)
            &&& call.fields[7] == ("ORD_DVSN"@, division)
        }),
{
    reveal_strlit("0");
    assert("0"@ =~= seq!['0']);
}

/// The code `02` is a buy, `01` a sell, and every other code an error.
pub proof fn law_sides_are_read_from_two_codes(raw: Seq<char>, prefix: Seq<char>)
    ensures
        side_in(raw, prefix) == Ok::<Side, Failure>(Side::Buy) <==> trimmed(raw) == seq!['0', '2'],
        side_in(raw, prefix) == Ok::<Side, Failure>(Side::Sell) <==> trimmed(raw) == seq![
            '0',
            '1',
        ],
        side_in(raw, prefix) is Err ==> side_in(raw, prefix)->Err_0 is Broker,
{
    reveal_strlit("02");
    reveal_strlit("01");
    assert("02"@ =~= seq!['0', '2']);
    assert("01"@ =~= seq!['0', '1']);
    assert("02"@[1] != "01"@[1]);
}

/// An execution is a fill of a ticker exactly where it names the ticker and reports shares, a
/// price, a side and a day; it is then the fill of those. An execution of the ticker with
/// shares is never passed over: it is a fill or an error.
pub proof fn law_an_execution_is_the_fill_it_reports(ticker: Seq<char>, row: KisExecRow)
    ensures
        row_fill(ticker, row) matches Ok(Some(fill)) ==> trimmed(row.pdno@) == ticker && shares_in(
            row.ft_ccld_qty@,
        ) == Ok::<u32, Failure>(fill.shares) && fill.shares > 0 && price_in(row.ft_ccld_unpr3@)
            == Ok::<Option<Dec>, Failure>(Some(fill.price)) && date_in(row.ord_dt@) == Ok::<
            Civil,
            Failure,
        >(fill.at) && (fill.side == Side::Buy <==> trimmed(row.sll_buy_dvsn_cd@) == seq!['0', '2'])
            && (fill.side == Side::Sell <==> trimmed(row.sll_buy_dvsn_cd@) == seq!['0', '1']),
        row_fill(ticker, row) == Ok::<Option<FillView>, Failure>(None) <==> trimmed(row.pdno@)
            != ticker || shares_in(row.ft_ccld_qty@) == Ok::<u32, Failure>(0),
        trimmed(row.pdno@) == ticker && shares_in(row.ft_ccld_qty@) is Ok && shares_in(
            row.ft_ccld_qty@,
        )->Ok_0 > 0 && price_in(row.ft_ccld_unpr3@) is Ok && price_in(row.ft_ccld_unpr3@)->Ok_0
            is Some && (trimmed(row.sll_buy_dvsn_cd@) == seq!['0', '2'] || trimmed(
            row.sll_buy_dvsn_cd@,
        ) == seq!['0', '1']) && date_in(row.ord_dt@) is Ok ==> row_fill(ticker, row) is Ok
            && row_fill(ticker, row)->Ok_0 is Some,
{
    law_sides_are_read_from_two_codes(row.sll_buy_dvsn_cd@, "KIS"@);
}

/// Executions are read one after another: those of two lists in a row are those of the first
/// and then those of the second, and the first error ends the reading.
pub proof fn law_executions_are_read_in_order(
    ticker: Seq<char>,
    a: Seq<KisExecRow>,
    b: Seq<KisExecRow>,
)
    ensures
        row_fills(ticker, a) is Ok && row_fills(ticker, b) is Ok ==> row_fills(ticker, a + b)
            == Ok::<Seq<FillView>, Failure>(row_fills(ticker, a)->Ok_0 + row_fills(ticker, b)->Ok_0),
        row_fills(ticker, a) is Err ==> row_fills(ticker, a + b) == row_fills(ticker, a),
        row_fills(ticker, a) is Ok && row_fills(ticker, b) is Err ==> row_fills(ticker, a + b)
            == row_fills(ticker, b),
    decreases b.len(),
{
    if b.len() == 0 {
        assert(a + b =~= a);
        if row_fills(ticker, a) is Ok {
            assert(row_fills(ticker, a)->Ok_0 + row_fills(ticker, b)->Ok_0 =~= row_fills(
                ticker,
                a,
            )->Ok_0);
        }
    } else {
        law_executions_are_read_in_order(ticker, a, b.drop_last());
        assert((a + b).drop_last() =~= a + b.drop_last());
        assert((a + b).last() == b.last());
        if row_fills(ticker, a) is Ok && row_fills(ticker, b) is Ok {
            assert(row_fills(ticker, a + b)->Ok_0 =~= row_fills(ticker, a)->Ok_0 + row_fills(
                ticker,
                b,
            )->Ok_0);
        }
    }
}

/// A single execution gives its own fill, or nothing, or its error.
pub proof fn law_one_execution_gives_its_fill(ticker: Seq<char>, row: KisExecRow)
    ensures
        row_fill(ticker, row) is Err <==> row_fills(ticker, seq![row]) is Err,
        row_fill(ticker, row) is Err ==> row_fills(ticker, seq![row])->Err_0 == row_fill(
            ticker,
            row,
        )->Err_0,
        row_fill(ticker, row) == Ok::<Option<FillView>, Failure>(None) ==> row_fills(
            ticker,
            seq![row],
        ) == Ok::<Seq<FillView>, Failure>(Seq::empty()),
        row_fill(ticker, row) matches Ok(Some(fill)) ==> row_fills(ticker, seq![row]) == Ok::<
            Seq<FillView>,
            Failure,
        >(seq![fill]),
{
    let one = seq![row];
    assert(one.drop_last() =~= Seq::<KisExecRow>::empty());
    assert(row_fills(ticker, one.drop_last()) == Ok::<Seq<FillView>, Failure>(Seq::empty()));
    if row_fill(ticker, row) is Ok && row_fill(ticker, row)->Ok_0 is Some {
        let fill = row_fill(ticker, row)->Ok_0->0;
        assert(Seq::<FillView>::empty().push(fill) =~= seq![fill]);
    }
}

/// A lot is a holding exactly where it has shares, of the ticker that it names, with the
/// average that it reports, none where that is not positive.
pub proof fn law_a_lot_is_the_holding_it_reports(
    symbol: Seq<char>,
    quantity: Seq<char>,
    average: Seq<char>,
)
    ensures
        lot_holding(symbol, quantity, average) == Ok::<Option<HoldingView>, Failure>(None)
            <==> shares_in(quantity) == Ok::<u32, Failure>(0),
        lot_holding(symbol, quantity, average) matches Ok(Some(h)) ==> h.ticker == uppercase(
            trimmed(symbol),
        ) && h.shares > 0 && shares_in(quantity) == Ok::<u32, Failure>(h.shares) && price_in(
            average,
        ) == Ok::<Option<Dec>, Failure>(h.avg_price),
        shares_in(quantity) is Ok && price_in(average) is Ok ==> lot_holding(
            symbol,
            quantity,
            average,
        ) is Ok,
{
}

/// Lots are read one after another: the holdings of two lists in a row are those of the first
/// and then those of the second, and the first error ends the reading.
pub proof fn law_lots_are_read_in_order(a: Seq<KisLot>, b: Seq<KisLot>)
    ensures
        lot_holdings(a) is Ok && lot_holdings(b) is Ok ==> lot_holdings(a + b) == Ok::<
            Seq<HoldingView>,
            Failure,
        >(lot_holdings(a)->Ok_0 + lot_holdings(b)->Ok_0),
        lot_holdings(a) is Err ==> lot_holdings(a + b) == lot_holdings(a),
        lot_holdings(a) is Ok && lot_holdings(b) is Err ==> lot_holdings(a + b) == lot_holdings(b),
    decreases b.len(),
{
    if b.len() == 0 {
        assert(a + b =~= a);
        if lot_holdings(a) is Ok {
            assert(lot_holdings(a)->Ok_0 + lot_holdings(b)->Ok_0 =~= lot_holdings(a)->Ok_0);
        }
    } else {
        law_lots_are_read_in_order(a, b.drop_last());
        assert((a + b).drop_last() =~= a + b.drop_last());
        assert((a + b).last() == b.last());
        if lot_holdings(a) is Ok && lot_holdings(b) is Ok {
            assert(lot_holdings(a + b)->Ok_0 =~= lot_holdings(a)->Ok_0 + lot_holdings(b)->Ok_0);
        }
    }
}

/// A single lot gives its own holding, or nothing, or its error.
pub proof fn law_one_lot_gives_its_holding(lot: KisLot)
    ensures
        lot_holdings(seq![lot]) is Err <==> lot_holding(
            lot.ovrs_pdno@,
            lot.ovrs_cblc_qty@,
            lot.pchs_avg_pric@,
        ) is Err,
        shares_in(lot.ovrs_cblc_qty@) == Ok::<u32, Failure>(0) ==> lot_holdings(seq![lot]) == Ok::<
            Seq<HoldingView>,
            Failure,
        >(Seq::empty()),
        lot_holdings(seq![lot]) matches Ok(held) ==> held.len() > 0 ==> held.len() == 1
            && held[0].ticker == uppercase(trimmed(lot.ovrs_pdno@)) && shares_in(
            lot.ovrs_cblc_qty@,
        ) == Ok::<u32, Failure>(held[0].shares) && price_in(lot.pchs_avg_pric@) == Ok::<
            Option<Dec>,
            Failure,
        >(held[0].avg_price),
        lot_holdings(seq![lot]) is Ok && shares_in(lot.ovrs_cblc_qty@) != Ok::<u32, Failure>(0)
            ==> lot_holdings(seq![lot])->Ok_0.len() == 1,
{
    let one = seq![lot];
    assert(one.drop_last() =~= Seq::<KisLot>::empty());
    assert(lot_holdings(one.drop_last()) == Ok::<Seq<HoldingView>, Failure>(Seq::empty()));
}

/// A quote is had exactly where the result code is `0` and the field holds a price, and is
/// then that price.
pub proof fn law_a_quote_is_the_price_reported(
    op: Seq<char>,
    ticker: Seq<char>,
    rt_cd: Seq<char>,
    msg1: Seq<char>,
    last: Seq<char>,
)
    ensures
        quoted(op, ticker, rt_cd, msg1, last) is Ok <==> rt_cd == seq!['0'] && price_in(last) is Ok
            && price_in(last)->Ok_0 is Some,
        quoted(op, ticker, rt_cd, msg1, last) is Ok ==> price_in(last) == Ok::<
            Option<Dec>,
            Failure,
        >(Some(quoted(op, ticker, rt_cd, msg1, last)->Ok_0)),
{
    law_zero_alone_is_success(op, rt_cd, msg1);
}

/// An order counts as placed exactly where the result code is `0` and its number is not
/// blank, and is then identified by the number.
pub proof fn law_an_order_is_placed_on_success_alone(
    op: Seq<char>,
    rt_cd: Seq<char>,
    msg1: Seq<char>,
    org: Seq<char>,
    number: Seq<char>,
)
    ensures
        ordered(op, rt_cd, msg1, org, number) is Ok <==> rt_cd == seq!['0'] && trimmed(
            number,
        ).len() > 0,
        ordered(op, rt_cd, msg1, org, number) is Ok && trimmed(org).len() == 0 ==> ordered(
            op,
            rt_cd,
            msg1,
            org,
            number,
        )->Ok_0 == trimmed(number),
        ordered(op, rt_cd, msg1, org, number) is Ok && trimmed(org).len() > 0 ==> ordered(
            op,
            rt_cd,
            msg1,
            org,
            number,
        )->Ok_0 == trimmed(org) + seq!['/'] + trimmed(number),
{
    law_zero_alone_is_success(op, rt_cd, msg1);
    law_accepted_orders_keep_their_number(org, number);
}

/// A page that could be read ends the scan where no more follows, and leads to the next page
/// below fifty; at fifty the scan fails. What was read before stays, with the page behind it.
pub proof fn law_a_page_is_taken_whole_or_fails(
    op: Seq<char>,
    ticker: Seq<char>,
    scan: ScanView,
    page: Seq<FillView>,
    more: bool,
    fk: Seq<char>,
    nk: Seq<char>,
    e: Failure,
)
    ensures
        page_taken(op, ticker, scan, Err(e), more, fk, nk) == Err::<(ScanView, bool), Failure>(e),
        page_taken(op, ticker, scan, Ok(page), more, fk, nk) is Err <==> more && scan.pages + 1
            >= 50,
        page_taken(op, ticker, scan, Ok(page), more, fk, nk) matches Err(f) ==> f
            == Failure::Broker(
            "KIS "@ + op + " exceeded 50 pages for "@ + ticker + "; narrow the window"@,
        ),
        page_taken(op, ticker, scan, Ok(page), more, fk, nk) matches Ok((after, done)) ==> done
            == !more && after.fills == scan.fills + page && after.pages == scan.pages + 1,
        page_taken(op, ticker, scan, Ok(page), true, fk, nk) matches Ok((after, done)) ==> after.fk
            == trimmed(fk) && after.nk == trimmed(nk) && after.tr_cont == "N"@,
{
    law_no_page_is_lost(scan, page, more, fk, nk);
    law_no_page_is_lost(scan, page, true, fk, nk);
}

/// The adapter trades overseas stocks, and its account is a paper one exactly in the paper
/// environment.
pub proof fn law_overseas_account_abilities(broker: KisBroker)
    ensures
        broker.broker() == BrokerId::Kis,
        broker.abilities().order_placement,
        broker.abilities().overseas,
        !broker.abilities().realtime_quotes,
        broker.abilities().paper_account <==> broker@.environment == KisEnv::Paper,
{
}

} // verus!

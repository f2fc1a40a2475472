//! KIS adapter for domestic Korean stocks: quotes, balance, executions, and orders.
//!
//! Orders are placed as day limits at the leg's limit price, rounded to the tick of ETFs. A
//! real domestic account stays fenced off. The account, the token and the request spacing
//! are shared with the overseas adapter.

use crate::date::Date;
use crate::decimal::{
    dec_of, decimal_parsed, decimal_product, decimal_quotient, decimal_text, normal_of, num,
    rounded_to, small_whole, times, Dec, Decimal,
};
use crate::error::{DomainError, Failure};
use crate::http::{
    compact, date_in, fields_of, number_in, parse_decimal, parse_shares, parse_yyyymmdd,
    push_field, shares_in, yyyymmdd, Field,
};
use crate::kis::{
    earlier_of, fill_result, fills_result, holdings_result, is_quote,
    law_an_order_is_placed_on_success_alone, law_sides_are_read_from_two_codes, lot_holding,
    money_result, ordered, page_taken, parse_side, quoted, read_lot, read_order, read_quote,
    scan_result, side_in, take_fills, KisOrderResp,
};
use crate::kis_session::{
    check_rt, law_zero_alone_is_success, more_follows, order_result, rt_verdict, says_more,
    FillScan, KisConfig, KisConfigView, KisEnv, KisRequest, KisRequestView, Method, ScanView,
    MAX_PAGES,
};
use crate::market::{BrokerId, OrderId, Quote, Side, Ticker};
use crate::money::{Money, Price, Shares};
use crate::order::{IntentView, OrderIntent};
use crate::paper::holdings_of;
use crate::ports::{BrokerInfo, Capabilities};
use crate::position::{fills_of, Fill, FillView, Holding, HoldingView};
use crate::text::{
    digits, join3, law_trimming_cuts_whitespace_alone, number_text, same, trim, trimmed,
};
use vstd::prelude::*;

verus! {

/// The balance-inquiry transaction id.
pub open spec fn domestic_balance_tr(env: KisEnv) -> Seq<char> {
    match env {
        KisEnv::Real => "TTTC8434R"@,
        KisEnv::Paper => "VTTC8434R"@,
    }
}

/// The cash-order transaction id.
pub open spec fn domestic_order_tr(env: KisEnv, side: Side) -> Seq<char> {
    match (env, side) {
        (KisEnv::Real, Side::Buy) => "TTTC0012U"@,
        (KisEnv::Real, Side::Sell) => "TTTC0011U"@,
        (KisEnv::Paper, Side::Buy) => "VTTC0012U"@,
        (KisEnv::Paper, Side::Sell) => "VTTC0011U"@,
    }
}

/// The daily-execution transaction id.
pub open spec fn domestic_exec_tr(env: KisEnv) -> Seq<char> {
    match env {
        KisEnv::Real => "TTTC0081R"@,
        KisEnv::Paper => "VTTC0081R"@,
    }
}

/// What a quote request returns.
#[derive(Debug)]
pub struct DomesticQuoteResp {
    pub rt_cd: String,
    pub msg1: String,
    pub stck_prpr: String,
}

/// One lot of a balance.
#[derive(Debug)]
pub struct DomesticLot {
    pub pdno: String,
    pub hldg_qty: String,
    pub pchs_avg_pric: String,
}

/// What a balance request returns. The deposit is in the first of the account summaries.
#[derive(Debug)]
pub struct DomesticBalanceResp {
    pub rt_cd: String,
    pub msg1: String,
    pub output1: Vec<DomesticLot>,
    pub dnca_tot_amt: Vec<String>,
}

/// One execution: its quantity and its total value.
#[derive(Debug)]
pub struct DailyCcldRow {
    pub ord_dt: String,
    pub pdno: String,
    pub sll_buy_dvsn_cd: String,
    pub tot_ccld_qty: String,
    pub tot_ccld_amt: String,
}

/// One page of executions.
#[derive(Debug)]
pub struct DailyCcldResp {
    pub rt_cd: String,
    pub msg1: String,
    pub output1: Vec<DailyCcldRow>,
    pub ctx_area_fk100: String,
    pub ctx_area_nk100: String,
}

/// A quote request.
pub open spec fn domestic_quote_call(ticker: Seq<char>) -> KisRequestView {
    KisRequestView {
        method: Method::Get,
        path: "/uapi/domestic-stock/v1/quotations/inquire-price"@,
        tr_id: "FHKST01010100"@,
        tr_cont: None,
        fields: seq![("FID_COND_MRKT_DIV_CODE"@, "J"@), ("FID_INPUT_ISCD"@, ticker)],
    }
}

/// A balance request.
pub open spec fn domestic_balance_call(config: KisConfigView) -> KisRequestView {
    KisRequestView {
        method: Method::Get,
        path: "/uapi/domestic-stock/v1/trading/inquire-balance"@,
        tr_id: domestic_balance_tr(config.environment),
        tr_cont: None,
        fields: seq![
            ("CANO"@, config.cano),
            ("ACNT_PRDT_CD"@, config.product_code),
            ("AFHR_FLPR_YN"@, "N"@),
            ("OFL_YN"@, ""@),
            ("INQR_DVSN"@, "02"@),
            ("UNPR_DVSN"@, "01"@),
            ("FUND_STTL_ICLD_YN"@, "N"@),
            ("FNCG_AMT_AUTO_RDPT_YN"@, "N"@),
            ("PRCS_DVSN"@, "00"@),
            ("CTX_AREA_FK100"@, ""@),
            ("CTX_AREA_NK100"@, ""@),
        ],
    }
}

/// A request for a page of executions from a day to today. The paper server is asked for all
/// tickers, since it does not narrow by one.
pub open spec fn domestic_fills_call(
    config: KisConfigView,
    ticker: Seq<char>,
    since: crate::date::Civil,
    today: crate::date::Civil,
    scan: ScanView,
) -> KisRequestView {
    KisRequestView {
        method: Method::Get,
        path: "/uapi/domestic-stock/v1/trading/inquire-daily-ccld"@,
        tr_id: domestic_exec_tr(config.environment),
        tr_cont: Some(scan.tr_cont),
        fields: seq![
            ("CANO"@, config.cano),
            ("ACNT_PRDT_CD"@, config.product_code),
            ("INQR_STRT_DT"@, compact(earlier_of(since, today))),
            ("INQR_END_DT"@, compact(today)),
            ("SLL_BUY_DVSN_CD"@, "00"@),
            ("INQR_DVSN"@, "01"@),
            ("PDNO"@, if config.environment == KisEnv::Real { ticker } else { ""@ }),
            ("CCLD_DVSN"@, "01"@),
            ("ORD_GNO_BRNO"@, ""@),
            ("ODNO"@, ""@),
            ("INQR_DVSN_3"@, "00"@),
            ("INQR_DVSN_1"@, ""@),
            ("EXCG_ID_DVSN_CD"@, "KRX"@),
            ("CTX_AREA_FK100"@, scan.fk),
            ("CTX_AREA_NK100"@, scan.nk),
        ],
    }
}

/// The tick of an ETF: one won below 2,000 won, five won from there.
pub open spec fn etf_tick(price: Dec) -> Dec {
    if num(price) < num(dec_of(2000)) {
        dec_of(1)
    } else {
        dec_of(5)
    }
}

/// A price in whole ticks, a tie to the even number of them.
pub open spec fn in_ticks(price: Dec) -> Option<Dec> {
    match decimal_quotient(price, etf_tick(price)) {
        Some(ticks) => times(Some(rounded_to(ticks, 0)), Some(etf_tick(price))),
        None => None,
    }
}

/// An order request at a price.
pub open spec fn domestic_place_call(
    config: KisConfigView,
    ticker: Seq<char>,
    order: IntentView,
    price: Dec,
) -> KisRequestView {
    KisRequestView {
        method: Method::Post,
        path: "/uapi/domestic-stock/v1/trading/order-cash"@,
        tr_id: domestic_order_tr(config.environment, order.side),
        tr_cont: None,
        fields: seq![
            ("CANO"@, config.cano),
            ("ACNT_PRDT_CD"@, config.product_code),
            ("PDNO"@, ticker),
            ("ORD_DVSN"@, "00"@),
            ("ORD_QTY"@, digits(order.shares as nat)),
            ("ORD_UNPR"@, decimal_text(normal_of(price))),
            ("EXCG_ID_DVSN_CD"@, "KRX"@),
        ],
    }
}

/// Round a limit price in won to the tick of ETFs: one won below 2,000 won, five won from
/// there.
pub fn etf_tick_round(price: Decimal) -> (r: Decimal)
    requires
        in_ticks(price@) is Some,
    ensures
        in_ticks(price@) == Some(r@),
{
    let tick = if price < Decimal::from_u32(2000) {
        Decimal::one()
    } else {
        Decimal::from_u32(5)
    };
    (price / tick).round_dp(0) * tick
}

/// Round a limit price to the tick of ETFs; `None` where it leaves the range.
pub fn try_etf_tick_round(price: Decimal) -> (r: Option<Decimal>)
    ensures
        match r {
            Some(d) => in_ticks(price@) == Some(d@),
            None => in_ticks(price@) is None,
        },
{
    let tick = if price < Decimal::from_u32(2000) {
        Decimal::one()
    } else {
        Decimal::from_u32(5)
    };
    let ticks = match price.checked_div(tick) {
        Some(t) => t,
        None => return None,
    };
    match ticks.round_dp(0).checked_mul(tick) {
        Some(_) => Some(etf_tick_round(price)),
        None => None,
    }
}

/// The price of an execution: its value over its quantity, which has to be positive. The
/// quotient exists, since the quantity is a small whole number.
pub open spec fn derived_price(ticker: Seq<char>, amount: Dec, shares: u32) -> Result<Dec, Failure> {
    let p = decimal_quotient(amount, dec_of(shares as int))->0;
    if p.0 > 0 {
        Ok(p)
    } else {
        Err(
            Failure::Broker(
                "KIS domestic fill for "@ + ticker + " had a non-positive execution amount"@,
            ),
        )
    }
}

/// What an execution is to a ticker: nothing if it is of another one or of no shares.
pub open spec fn ccld_fill(ticker: Seq<char>, row: DailyCcldRow) -> Result<
    Option<FillView>,
    Failure,
> {
    if trimmed(row.pdno@) != ticker {
        Ok(None)
    } else {
        match shares_in(row.tot_ccld_qty@) {
            Err(e) => Err(e),
            Ok(shares) => if shares == 0 {
                Ok(None)
            } else {
                match number_in(row.tot_ccld_amt@) {
                    Err(e) => Err(e),
                    Ok(amount) => match derived_price(ticker, amount, shares) {
                        Err(e) => Err(e),
                        Ok(price) => match side_in(row.sll_buy_dvsn_cd@, "KIS domestic"@) {
                            Err(e) => Err(e),
                            Ok(side) => match date_in(row.ord_dt@) {
                                Err(e) => Err(e),
                                Ok(at) => Ok(Some(FillView { side, shares, price, at })),
                            },
                        },
                    },
                }
            },
        }
    }
}

/// The fills of a ticker among executions, in order; the first error where there is one.
pub open spec fn ccld_fills(ticker: Seq<char>, rows: Seq<DailyCcldRow>) -> Result<
    Seq<FillView>,
    Failure,
>
    decreases rows.len(),
{
    if rows.len() == 0 {
        Ok(Seq::empty())
    } else {
        match ccld_fills(ticker, rows.drop_last()) {
            Err(e) => Err(e),
            Ok(before) => match ccld_fill(ticker, rows.last()) {
                Err(e) => Err(e),
                Ok(None) => Ok(before),
                Ok(Some(fill)) => Ok(before.push(fill)),
            },
        }
    }
}

proof fn lemma_ccld_error(ticker: Seq<char>, rows: Seq<DailyCcldRow>, n: int, e: Failure)
    requires
        0 <= n <= rows.len(),
        ccld_fills(ticker, rows.take(n)) == Err::<Seq<FillView>, Failure>(e),
    ensures
        ccld_fills(ticker, rows) == Err::<Seq<FillView>, Failure>(e),
    decreases rows.len() - n,
{
    if n == rows.len() {
        assert(rows.take(n) =~= rows);
    } else {
        assert(rows.take(n + 1).drop_last() =~= rows.take(n));
        lemma_ccld_error(ticker, rows, n + 1, e);
    }
}

/// The price of an execution: its value over its quantity.
pub fn price_from_value(ticker: &Ticker, amount: Decimal, shares: Shares) -> (r: Result<
    Price,
    DomainError,
>)
    requires
        shares@ > 0,
    ensures
        decimal_quotient(amount@, dec_of(shares@ as int)) is Some,
        match r {
            Ok(p) => derived_price(ticker@, amount@, shares@) == Ok::<Dec, Failure>(p@),
            Err(e) => derived_price(ticker@, amount@, shares@) == Err::<Dec, Failure>(e@),
        },
{
    proof {
        assert(small_whole(dec_of(shares@ as int)));
    }
    let quotient = match amount.checked_div(Decimal::from_u32(shares.get())) {
        Some(q) => q,
        None => unreached(),
    };
    match Price::new(quotient) {
        Some(p) => Ok(p),
        None => Err(
            DomainError::Broker(
                join3(
                    "KIS domestic fill for ",
                    ticker.as_str(),
                    " had a non-positive execution amount",
                ),
            ),
        ),
    }
}

/// Read one execution.
pub fn read_ccld_row(ticker: &Ticker, row: &DailyCcldRow) -> (r: Result<
    Option<Fill>,
    DomainError,
>)
    ensures
        fill_result(r) == ccld_fill(ticker@, *row),
{
    if !same(trim(row.pdno.as_str()), ticker.as_str()) {
        return Ok(None);
    }
    let shares = match parse_shares(row.tot_ccld_qty.as_str()) {
        Ok(s) => s,
        Err(e) => return Err(e),
    };
    if shares.is_zero() {
        return Ok(None);
    }
    let amount = match parse_decimal(row.tot_ccld_amt.as_str()) {
        Ok(a) => a,
        Err(e) => return Err(e),
    };
    let price = match price_from_value(ticker, amount, shares) {
        Ok(p) => p,
        Err(e) => return Err(e),
    };
    let side = match parse_side(row.sll_buy_dvsn_cd.as_str(), "KIS domestic") {
        Ok(s) => s,
        Err(e) => return Err(e),
    };
    match parse_yyyymmdd(row.ord_dt.as_str()) {
        Ok(at) => Ok(Some(Fill { side, shares, price, at })),
        Err(e) => Err(e),
    }
}

/// Read the fills of a ticker among executions.
pub fn read_ccld_rows(ticker: &Ticker, rows: &[DailyCcldRow]) -> (r: Result<
    Vec<Fill>,
    DomainError,
>)
    ensures
        fills_result(r) == ccld_fills(ticker@, rows@),
{
    let mut fills: Vec<Fill> = Vec::new();
    let mut i: usize = 0;
    assert(rows@.take(0) =~= Seq::<DailyCcldRow>::empty());
    assert(fills_of(fills@) =~= Seq::<FillView>::empty());
    while i < rows.len()
        invariant
            i <= rows.len(),
            ccld_fills(ticker@, rows@.take(i as int)) == Ok::<Seq<FillView>, Failure>(
                fills_of(fills@),
            ),
        decreases rows.len() - i,
    {
        proof {
            assert(rows@.take(i + 1).drop_last() =~= rows@.take(i as int));
            assert(rows@.take(i + 1).last() == rows[i as int]);
        }
        match read_ccld_row(ticker, &rows[i]) {
            Ok(Some(fill)) => {
                let ghost before = fills_of(fills@);
                fills.push(fill);
                assert(fills_of(fills@) =~= before.push(fill@));
            },
            Ok(None) => {},
            Err(e) => {
                proof {
                    lemma_ccld_error(ticker@, rows@, i + 1, e@);
                }
                return Err(e);
            },
        }
        i += 1;
    }
    assert(rows@.take(i as int) =~= rows@);
    Ok(fills)
}

/// The holdings among lots, in order; the first error where there is one.
pub open spec fn domestic_holdings(lots: Seq<DomesticLot>) -> Result<Seq<HoldingView>, Failure>
    decreases lots.len(),
{
    if lots.len() == 0 {
        Ok(Seq::empty())
    } else {
        let lot = lots.last();
        match domestic_holdings(lots.drop_last()) {
            Err(e) => Err(e),
            Ok(before) => match lot_holding(lot.pdno@, lot.hldg_qty@, lot.pchs_avg_pric@) {
                Err(e) => Err(e),
                Ok(None) => Ok(before),
                Ok(Some(h)) => Ok(before.push(h)),
            },
        }
    }
}

proof fn lemma_holdings_error(lots: Seq<DomesticLot>, n: int, e: Failure)
    requires
        0 <= n <= lots.len(),
        domestic_holdings(lots.take(n)) == Err::<Seq<HoldingView>, Failure>(e),
    ensures
        domestic_holdings(lots) == Err::<Seq<HoldingView>, Failure>(e),
    decreases lots.len() - n,
{
    if n == lots.len() {
        assert(lots.take(n) =~= lots);
    } else {
        assert(lots.take(n + 1).drop_last() =~= lots.take(n));
        lemma_holdings_error(lots, n + 1, e);
    }
}

/// The text of the deposit: that of the first summary, and zero where it is missing or empty.
pub open spec fn deposit_text(summaries: Seq<String>) -> Seq<char> {
    let raw = if summaries.len() == 0 {
        ""@
    } else {
        trimmed(summaries[0]@)
    };
    if raw.len() == 0 {
        "0"@
    } else {
        raw
    }
}

/// What an order is refused for, if it is: a real account, or no limit price.
pub open spec fn refusal(config: KisConfigView, order: IntentView) -> Option<Failure> {
    if config.environment == KisEnv::Real {
        Some(
            Failure::Unsupported(
                "domestic real-account placement is not enabled yet — it is a deliberate go-live after the 모의 cross-day reconcile is confirmed (#22)"@,
            ),
        )
    } else if order.limit is None {
        Some(Failure::Broker("domestic placement requires a limit price"@))
    } else {
        None
    }
}

/// A KIS adapter for domestic stocks. The US exchange of the configuration plays no part.
#[derive(Debug)]
pub struct KisDomesticBroker {
    config: KisConfig,
}

impl View for KisDomesticBroker {
    type V = KisConfigView;

    closed spec fn view(&self) -> KisConfigView {
        self.config@
    }
}

impl KisDomesticBroker {
    pub fn new(config: KisConfig) -> (r: KisDomesticBroker)
        ensures
            r@ == config@,
    {
        KisDomesticBroker { config }
    }

    /// The configuration of the account.
    pub fn config(&self) -> (r: &KisConfig)
        ensures
            r@ == self@,
    {
        &self.config
    }

    /// The transaction id of a balance inquiry.
    pub fn balance_tr_id(&self) -> (r: &'static str)
        ensures
            r@ == domestic_balance_tr(self@.environment),
    {
        match self.config.environment {
            KisEnv::Real => "TTTC8434R",
            KisEnv::Paper => "VTTC8434R",
        }
    }

    /// The transaction id of a cash order.
    pub fn order_tr_id(&self, side: Side) -> (r: &'static str)
        ensures
            r@ == domestic_order_tr(self@.environment, side),
            self@.environment == KisEnv::Real && side == Side::Buy ==> r@ == "TTTC0012U"@,
            self@.environment == KisEnv::Real && side == Side::Sell ==> r@ == "TTTC0011U"@,
            self@.environment == KisEnv::Paper && side == Side::Buy ==> r@ == "VTTC0012U"@,
            self@.environment == KisEnv::Paper && side == Side::Sell ==> r@ == "VTTC0011U"@,
    {
        match (self.config.environment, side) {
            (KisEnv::Real, Side::Buy) => "TTTC0012U",
            (KisEnv::Real, Side::Sell) => "TTTC0011U",
            (KisEnv::Paper, Side::Buy) => "VTTC0012U",
            (KisEnv::Paper, Side::Sell) => "VTTC0011U",
        }
    }

    /// The transaction id of a daily execution inquiry.
    pub fn daily_ccld_tr_id(&self) -> (r: &'static str)
        ensures
            r@ == domestic_exec_tr(self@.environment),
    {
        match self.config.environment {
            KisEnv::Real => "TTTC0081R",
            KisEnv::Paper => "VTTC0081R",
        }
    }

    /// The request for a quote.
    pub fn quote_request(&self, ticker: &Ticker) -> (r: KisRequest)
        ensures
            r@ == domestic_quote_call(ticker@),
    {
        let mut fields: Vec<Field> = Vec::new();
        assert(fields_of(fields@) =~= Seq::<(Seq<char>, Seq<char>)>::empty());
        push_field(&mut fields, "FID_COND_MRKT_DIV_CODE", "J");
        push_field(&mut fields, "FID_INPUT_ISCD", ticker.as_str());
        let r = KisRequest {
            method: Method::Get,
            path: "/uapi/domestic-stock/v1/quotations/inquire-price",
            tr_id: "FHKST01010100",
            tr_cont: None,
            fields,
        };
        assert(r@.fields =~= domestic_quote_call(ticker@).fields);
        r
    }

    /// Read the answer to a quote request.
    pub fn quote(&self, ticker: &Ticker, as_of: Date, body: &DomesticQuoteResp) -> (r: Result<
        Quote,
        DomainError,
    >)
        ensures
            is_quote(
                r,
                ticker@,
                as_of@,
                quoted("domestic quote"@, ticker@, body.rt_cd@, body.msg1@, body.stck_prpr@),
            ),
    {
        read_quote(
            "domestic quote",
            ticker,
            as_of,
            body.rt_cd.as_str(),
            body.msg1.as_str(),
            body.stck_prpr.as_str(),
        )
    }

    /// The request for the balance.
    pub fn balance_request(&self) -> (r: KisRequest)
        ensures
            r@ == domestic_balance_call(self@),
    {
        let mut fields: Vec<Field> = Vec::new();
        assert(fields_of(fields@) =~= Seq::<(Seq<char>, Seq<char>)>::empty());
        push_field(&mut fields, "CANO", self.config.cano.as_str());
        push_field(&mut fields, "ACNT_PRDT_CD", self.config.product_code.as_str());
        push_field(&mut fields, "AFHR_FLPR_YN", "N");
        push_field(&mut fields, "OFL_YN", "");
        push_field(&mut fields, "INQR_DVSN", "02");
        push_field(&mut fields, "UNPR_DVSN", "01");
        push_field(&mut fields, "FUND_STTL_ICLD_YN", "N");
        push_field(&mut fields, "FNCG_AMT_AUTO_RDPT_YN", "N");
        push_field(&mut fields, "PRCS_DVSN", "00");
        push_field(&mut fields, "CTX_AREA_FK100", "");
        push_field(&mut fields, "CTX_AREA_NK100", "");
        let r = KisRequest {
            method: Method::Get,
            path: "/uapi/domestic-stock/v1/trading/inquire-balance",
            tr_id: self.balance_tr_id(),
            tr_cont: None,
            fields,
        };
        assert(r@.fields =~= domestic_balance_call(self@).fields);
        r
    }

    /// Read the holdings off a balance. Lots without shares are left out.
    pub fn holdings(&self, body: &DomesticBalanceResp) -> (r: Result<Vec<Holding>, DomainError>)
        ensures
            holdings_result(r) == match rt_verdict(
                "domestic balance"@,
                body.rt_cd@,
                body.msg1@,
            ) {
                Err(e) => Err(e),
                Ok(()) => domestic_holdings(body.output1@),
            },
    {
        match check_rt("domestic balance", body.rt_cd.as_str(), body.msg1.as_str()) {
            Ok(()) => {},
            Err(e) => return Err(e),
        }
        let ghost lots = body.output1@;
        let mut holdings: Vec<Holding> = Vec::new();
        let mut i: usize = 0;
        assert(lots.take(0) =~= Seq::<DomesticLot>::empty());
        assert(holdings_of(holdings@) =~= Seq::<HoldingView>::empty());
        while i < body.output1.len()
            invariant
                i <= body.output1.len(),
                lots == body.output1@,
                rt_verdict("domestic balance"@, body.rt_cd@, body.msg1@) is Ok,
                domestic_holdings(lots.take(i as int)) == Ok::<Seq<HoldingView>, Failure>(
                    holdings_of(holdings@),
                ),
            decreases body.output1.len() - i,
        {
            proof {
                assert(lots.take(i + 1).drop_last() =~= lots.take(i as int));
                assert(lots.take(i + 1).last() == body.output1[i as int]);
            }
            let lot = &body.output1[i];
            match read_lot(lot.pdno.as_str(), lot.hldg_qty.as_str(), lot.pchs_avg_pric.as_str()) {
                Ok(Some(h)) => {
                    let ghost before = holdings_of(holdings@);
                    let ghost new = h@;
                    holdings.push(h);
                    assert(holdings_of(holdings@) =~= before.push(new));
                },
                Ok(None) => {},
                Err(e) => {
                    proof {
                        lemma_holdings_error(lots, i + 1, e@);
                    }
                    return Err(e);
                },
            }
            i += 1;
        }
        assert(lots.take(i as int) =~= lots);
        Ok(holdings)
    }

    /// Read the deposit off a balance. No summary, or an empty field, means no cash.
    pub fn balance(&self, body: &DomesticBalanceResp) -> (r: Result<Money, DomainError>)
        ensures
            money_result(r) == match rt_verdict("domestic balance"@, body.rt_cd@, body.msg1@) {
                Err(e) => Err(e),
                Ok(()) => number_in(deposit_text(body.dnca_tot_amt@)),
            },
            r is Ok ==> body.rt_cd@ == seq!['0'],
            r is Ok && body.dnca_tot_amt@.len() > 0 && trimmed(body.dnca_tot_amt@[0]@).len() > 0
                ==> decimal_parsed(trimmed(body.dnca_tot_amt@[0]@)) == Ok::<Dec, Seq<char>>(
                r->Ok_0@,
            ),
    {
        proof {
            law_zero_alone_is_success("domestic balance"@, body.rt_cd@, body.msg1@);
            law_the_deposit_is_that_of_the_first_summary(body.dnca_tot_amt@);
            if body.dnca_tot_amt@.len() > 0 {
                let (a, b) = law_trimming_cuts_whitespace_alone(body.dnca_tot_amt@[0]@);
            }
        }
        match check_rt("domestic balance", body.rt_cd.as_str(), body.msg1.as_str()) {
            Ok(()) => {},
            Err(e) => return Err(e),
        }
        proof {
            reveal_strlit("");
        }
        let raw = if body.dnca_tot_amt.len() == 0 {
            ""
        } else {
            trim(body.dnca_tot_amt[0].as_str())
        };
        let amount = if raw.is_empty() {
            "0"
        } else {
            raw
        };
        match parse_decimal(amount) {
            Ok(d) => Ok(Money::new(d)),
            Err(e) => Err(e),
        }
    }

    /// The request for the next page of a ticker's executions. `today` is the trading date in
    /// Korea; a start after it is taken as today.
    pub fn fills_request(&self, ticker: &Ticker, since: Date, today: Date, scan: &FillScan) -> (r:
        KisRequest)
        ensures
            r@ == domestic_fills_call(self@, ticker@, since@, today@, scan@),
    {
        let start = if today.is_before(&since) {
            yyyymmdd(today)
        } else {
            yyyymmdd(since)
        };
        let end = yyyymmdd(today);
        let pdno = match self.config.environment {
            KisEnv::Real => ticker.as_str(),
            KisEnv::Paper => "",
        };
        let mut fields: Vec<Field> = Vec::new();
        assert(fields_of(fields@) =~= Seq::<(Seq<char>, Seq<char>)>::empty());
        push_field(&mut fields, "CANO", self.config.cano.as_str());
        push_field(&mut fields, "ACNT_PRDT_CD", self.config.product_code.as_str());
        push_field(&mut fields, "INQR_STRT_DT", start.as_str());
        push_field(&mut fields, "INQR_END_DT", end.as_str());
        push_field(&mut fields, "SLL_BUY_DVSN_CD", "00");
        push_field(&mut fields, "INQR_DVSN", "01");
        push_field(&mut fields, "PDNO", pdno);
        push_field(&mut fields, "CCLD_DVSN", "01");
        push_field(&mut fields, "ORD_GNO_BRNO", "");
        push_field(&mut fields, "ODNO", "");
        push_field(&mut fields, "INQR_DVSN_3", "00");
        push_field(&mut fields, "INQR_DVSN_1", "");
        push_field(&mut fields, "EXCG_ID_DVSN_CD", "KRX");
        push_field(&mut fields, "CTX_AREA_FK100", scan.fk());
        push_field(&mut fields, "CTX_AREA_NK100", scan.nk());
        let r = KisRequest {
            method: Method::Get,
            path: "/uapi/domestic-stock/v1/trading/inquire-daily-ccld",
            tr_id: self.daily_ccld_tr_id(),
            tr_cont: Some(scan.tr_cont().to_owned()),
            fields,
        };
        assert(r@.fields =~= domestic_fills_call(self@, ticker@, since@, today@, scan@).fields);
        r
    }

    /// Take a page of executions: the scan after it, and whether it is complete. `header` is
    /// the continuation header of the answer.
    pub fn fills_since(
        &self,
        ticker: &Ticker,
        scan: FillScan,
        header: Option<&str>,
        body: &DailyCcldResp,
    ) -> (r: Result<(FillScan, bool), DomainError>)
        requires
            scan@.pages < MAX_PAGES,
        ensures
            scan_result(r) == match rt_verdict(
                "domestic inquire-daily-ccld"@,
                body.rt_cd@,
                body.msg1@,
            ) {
                Err(e) => Err(e),
                Ok(()) => page_taken(
                    "domestic inquire-daily-ccld"@,
                    ticker@,
                    scan@,
                    ccld_fills(ticker@, body.output1@),
                    says_more(
                        match header {
                            Some(h) => Some(h@),
                            None => None,
                        },
                    ),
                    body.ctx_area_fk100@,
                    body.ctx_area_nk100@,
                ),
            },
    {
        match check_rt("domestic inquire-daily-ccld", body.rt_cd.as_str(), body.msg1.as_str()) {
            Ok(()) => {},
            Err(e) => return Err(e),
        }
        let page = match read_ccld_rows(ticker, &body.output1) {
            Ok(page) => page,
            Err(e) => return Err(e),
        };
        take_fills(
            "domestic inquire-daily-ccld",
            ticker,
            scan,
            page,
            more_follows(header),
            body.ctx_area_fk100.as_str(),
            body.ctx_area_nk100.as_str(),
        )
    }

    /// The request for an order: a day limit at the limit price in whole ticks. A real
    /// account is refused before anything is sent.
    pub fn place_request(&self, ticker: &Ticker, order: &OrderIntent) -> (r: Result<
        KisRequest,
        DomainError,
    >)
        requires
            refusal(self@, order@) is None ==> in_ticks(order@.limit->0) is Some,
        ensures
            match r {
                Ok(request) => refusal(self@, order@) is None && request@ == domestic_place_call(
                    self@,
                    ticker@,
                    order@,
                    in_ticks(order@.limit->0)->0,
                ),
                Err(e) => refusal(self@, order@) == Some(e@),
            },
    {
        if self.config.environment == KisEnv::Real {
            return Err(
                DomainError::Unsupported(
                    "domestic real-account placement is not enabled yet — it is a deliberate go-live after the 모의 cross-day reconcile is confirmed (#22)".to_owned(),
                ),
            );
        }
        let limit = match order.limit {
            Some(limit) => limit,
            None => {
                return Err(
                    DomainError::Broker("domestic placement requires a limit price".to_owned()),
                );
            },
        };
        let unit_price = etf_tick_round(limit.value());
        let quantity = number_text(order.shares.get() as u64);
        let price_text = unit_price.normalize().to_text();
        let mut fields: Vec<Field> = Vec::new();
        assert(fields_of(fields@) =~= Seq::<(Seq<char>, Seq<char>)>::empty());
        push_field(&mut fields, "CANO", self.config.cano.as_str());
        push_field(&mut fields, "ACNT_PRDT_CD", self.config.product_code.as_str());
        push_field(&mut fields, "PDNO", ticker.as_str());
        push_field(&mut fields, "ORD_DVSN", "00");
        push_field(&mut fields, "ORD_QTY", quantity.as_str());
        push_field(&mut fields, "ORD_UNPR", price_text.as_str());
        push_field(&mut fields, "EXCG_ID_DVSN_CD", "KRX");
        let r = KisRequest {
            method: Method::Post,
            path: "/uapi/domestic-stock/v1/trading/order-cash",
            tr_id: self.order_tr_id(order.side),
            tr_cont: None,
            fields,
        };
        assert(r@.fields =~= domestic_place_call(self@, ticker@, order@, unit_price@).fields);
        Ok(r)
    }

    /// The request for an order; `None` where the price leaves the range.
    pub fn try_place_request(&self, ticker: &Ticker, order: &OrderIntent) -> (r: Option<
        Result<KisRequest, DomainError>,
    >)
        ensures
            match r {
                Some(Ok(request)) => refusal(self@, order@) is None && in_ticks(
                    order@.limit->0,
                ) is Some && request@ == domestic_place_call(
                    self@,
                    ticker@,
                    order@,
                    in_ticks(order@.limit->0)->0,
                ),
                Some(Err(e)) => refusal(self@, order@) == Some(e@),
                None => refusal(self@, order@) is None && in_ticks(order@.limit->0) is None,
            },
    {
        if self.config.environment == KisEnv::Paper {
            if let Some(limit) = order.limit {
                if try_etf_tick_round(limit.value()).is_none() {
                    return None;
                }
            }
        }
        Some(self.place_request(ticker, order))
    }

    /// Read the answer to an order.
    pub fn place(&self, body: &KisOrderResp) -> (r: Result<OrderId, DomainError>)
        ensures
            order_result(r) == ordered(
                "domestic order"@,
                body.rt_cd@,
                body.msg1@,
                body.krx_fwdg_ord_orgno@,
                body.odno@,
            ),
            r is Ok <==> body.rt_cd@ == seq!['0'] && trimmed(body.odno@).len() > 0,
    {
        proof {
            law_an_order_is_placed_on_success_alone(
                "domestic order"@,
                body.rt_cd@,
                body.msg1@,
                body.krx_fwdg_ord_orgno@,
                body.odno@,
            );
        }
        read_order(
            "domestic order",
            body.rt_cd.as_str(),
            body.msg1.as_str(),
            body.krx_fwdg_ord_orgno.as_str(),
            body.odno.as_str(),
        )
    }

    /// Orders are not cancelled.
    pub fn cancel(&self, _id: &OrderId) -> (r: Result<(), DomainError>)
        ensures
            r matches Err(e) && e@ == Failure::Unsupported(
                "domestic KIS order cancellation is not implemented"@,
            ),
    {
        Err(
            DomainError::Unsupported(
                "domestic KIS order cancellation is not implemented".to_owned(),
            ),
        )
    }
}

impl BrokerInfo for KisDomesticBroker {
    open spec fn broker(&self) -> BrokerId {
        BrokerId::Kis
    }

    open spec fn abilities(&self) -> Capabilities {
        Capabilities {
            realtime_quotes: false,
            paper_account: self@.environment == KisEnv::Paper,
            order_placement: true,
            overseas: false,
        }
    }

    fn id(&self) -> (r: BrokerId) {
        BrokerId::Kis
    }

    fn capabilities(&self) -> (r: Capabilities) {
        Capabilities {
            realtime_quotes: false,
            paper_account: self.config.environment == KisEnv::Paper,
            order_placement: true,
            overseas: false,
        }
    }
}

/// No order of a real domestic account leaves the library.
pub proof fn law_real_domestic_accounts_are_fenced(config: KisConfigView, order: IntentView)
    requires
        config.environment == KisEnv::Real,
    ensures
        refusal(config, order) is Some,
{
}

/// The four ids of a cash order are the literal ones. In each environment a sell has another
/// id than a buy, and no id serves both environments.
pub proof fn law_cash_order_ids_tell_sides_and_environments_apart(env: KisEnv, side: Side)
    ensures
        domestic_order_tr(KisEnv::Real, Side::Buy) == "TTTC0012U"@,
        domestic_order_tr(KisEnv::Real, Side::Sell) == "TTTC0011U"@,
        domestic_order_tr(KisEnv::Paper, Side::Buy) == "VTTC0012U"@,
        domestic_order_tr(KisEnv::Paper, Side::Sell) == "VTTC0011U"@,
        domestic_order_tr(env, Side::Buy) != domestic_order_tr(env, Side::Sell),
        env == KisEnv::Real <==> domestic_order_tr(env, side)[0] == 'T',
        env == KisEnv::Paper <==> domestic_order_tr(env, side)[0] == 'V',
        domestic_balance_tr(KisEnv::Real) == "TTTC8434R"@,
        domestic_balance_tr(KisEnv::Paper) == "VTTC8434R"@,
        domestic_exec_tr(KisEnv::Real) == "TTTC0081R"@,
        domestic_exec_tr(KisEnv::Paper) == "VTTC0081R"@,
{
    reveal_strlit("TTTC0012U");
    reveal_strlit("TTTC0011U");
    reveal_strlit("VTTC0012U");
    reveal_strlit("VTTC0011U");
    assert(domestic_order_tr(env, Side::Buy)[7] == '2');
    assert(domestic_order_tr(env, Side::Sell)[7] == '1');
}

/// A domestic quote asks for the ticker on the stock market.
pub proof fn law_a_domestic_quote_names_the_ticker(ticker: Seq<char>)
    ensures
        domestic_quote_call(ticker).method == Method::Get,
        domestic_quote_call(ticker).path == "/uapi/domestic-stock/v1/quotations/inquire-price"@,
        domestic_quote_call(ticker).tr_id == "FHKST01010100"@,
        domestic_quote_call(ticker).tr_cont is None,
        domestic_quote_call(ticker).fields.len() == 2,
        domestic_quote_call(ticker).fields[0] == ("FID_COND_MRKT_DIV_CODE"@, "J"@),
        domestic_quote_call(ticker).fields[1] == ("FID_INPUT_ISCD"@, ticker),
{
}

/// A domestic balance is that of the account.
pub proof fn law_a_domestic_balance_is_that_of_the_account(config: KisConfigView)
    ensures
        ({
            let call = domestic_balance_call(config);
            let blank = Seq::<char>::empty();
            &&& call.method == Method::Get
            &&& call.path == "/uapi/domestic-stock/v1/trading/inquire-balance"@
            &&& config.environment == KisEnv::Real ==> call.tr_id == "TTTC8434R"@
            &&& config.environment == KisEnv::Paper ==> call.tr_id == "VTTC8434R"@
            &&& call.tr_cont is None
            &&& call.fields.len() == 11
            &&& call.fields[0] == ("CANO"@, config.cano)
            &&& call.fields[1] == ("ACNT_PRDT_CD"@, config.product_code)
            &&& call.fields[2] == ("AFHR_FLPR_YN"@, "N"@)
            &&& call.fields[3] == ("OFL_YN"@, blank)
            &&& call.fields[4] == ("INQR_DVSN"@, "02"@)
            &&& call.fields[5] == ("UNPR_DVSN"@, "01"@)
            &&& call.fields[6] == ("FUND_STTL_ICLD_YN"@, "N"@)
            &&& call.fields[7] == ("FNCG_AMT_AUTO_RDPT_YN"@, "N"@)
            &&& call.fields[8] == ("PRCS_DVSN"@, "00"@)
            &&& call.fields[9] == ("CTX_AREA_FK100"@, blank)
            &&& call.fields[10] == ("CTX_AREA_NK100"@, blank)
        }),
{
    reveal_strlit("");
    assert(""@ =~= Seq::<char>::empty());
}

/// The domestic executions asked for are those of the account up to today, from a start that
/// is never after it, on both sides, with the keys of the scan. A real account asks for its
/// ticker, the paper one for all.
pub proof fn law_domestic_executions_are_asked_for_up_to_today(
    config: KisConfigView,
    ticker: Seq<char>,
    since: crate::date::Civil,
    today: crate::date::Civil,
    scan: ScanView,
)
    ensures
        ({
            let call = domestic_fills_call(config, ticker, since, today, scan);
            let blank = Seq::<char>::empty();
            &&& call.method == Method::Get
            &&& call.path == "/uapi/domestic-stock/v1/trading/inquire-daily-ccld"@
            &&& config.environment == KisEnv::Real ==> call.tr_id == "TTTC0081R"@
            &&& config.environment == KisEnv::Paper ==> call.tr_id == "VTTC0081R"@
            &&& call.tr_cont == Some(scan.tr_cont)
            &&& call.fields.len() == 15
            &&& call.fields[0] == ("CANO"@, config.cano)
            &&& call.fields[1] == ("ACNT_PRDT_CD"@, config.product_code)
            &&& !crate::date::earlier(today, since) ==> call.fields[2] == (
                "INQR_STRT_DT"@,
                compact(since),
            )
            &&& crate::date::earlier(today, since) ==> call.fields[2] == (
                "INQR_STRT_DT"@,
                compact(today),
            )
            &&& call.fields[3] == ("INQR_END_DT"@, compact(today))
            &&& call.fields[4] == ("SLL_BUY_DVSN_CD"@, "00"@)
            &&& call.fields[5] == ("INQR_DVSN"@, "01"@)
            &&& config.environment == KisEnv::Real ==> call.fields[6] == ("PDNO"@, ticker)
            &&& config.environment == KisEnv::Paper ==> call.fields[6] == ("PDNO"@, blank)
            &&& call.fields[7] == ("CCLD_DVSN"@, "01"@)
            &&& call.fields[8] == ("ORD_GNO_BRNO"@, blank)
            &&& call.fields[9] == ("ODNO"@, blank)
            &&& call.fields[10] == ("INQR_DVSN_3"@, "00"@)
            &&& call.fields[11] == ("INQR_DVSN_1"@, blank)
            &&& call.fields[12] == ("EXCG_ID_DVSN_CD"@, "KRX"@)
            &&& call.fields[13] == ("CTX_AREA_FK100"@, scan.fk)
            &&& call.fields[14] == ("CTX_AREA_NK100"@, scan.nk)
        }),
{
    reveal_strlit("");
    assert(""@ =~= Seq::<char>::empty());
}

/// Below 2,000 won a price is rounded to whole won, from there to whole fives: the ticks in it
/// are counted, the count rounded to a whole number, and that many ticks are the price.
pub proof fn law_prices_come_in_whole_ticks(price: Dec)
    ensures
        num(price) < num((2000i128, 0u32)) ==> in_ticks(price) == match decimal_quotient(
            price,
            (1i128, 0u32),
        ) {
            Some(ticks) => decimal_product(rounded_to(ticks, 0), (1i128, 0u32)),
            None => None,
        },
        num(price) >= num((2000i128, 0u32)) ==> in_ticks(price) == match decimal_quotient(
            price,
            (5i128, 0u32),
        ) {
            Some(ticks) => decimal_product(rounded_to(ticks, 0), (5i128, 0u32)),
            None => None,
        },
{
}

/// A domestic order request is sent for the side of the order, as a day limit at the price
/// given, and carries the ticker and the shares.
pub proof fn law_a_domestic_order_is_sent_as_it_was_made(
    config: KisConfigView,
    ticker: Seq<char>,
    order: IntentView,
    price: Dec,
)
    ensures
        ({
            let call = domestic_place_call(config, ticker, order, price);
            &&& call.method == Method::Post
            &&& call.path == "/uapi/domestic-stock/v1/trading/order-cash"@
            &&& config.environment == KisEnv::Real && order.side == Side::Buy ==> call.tr_id
                == "TTTC0012U"@
            &&& config.environment == KisEnv::Real && order.side == Side::Sell ==> call.tr_id
                == "TTTC0011U"@
            &&& config.environment == KisEnv::Paper && order.side == Side::Buy ==> call.tr_id
                == "VTTC0012U"@
            &&& config.environment == KisEnv::Paper && order.side == Side::Sell ==> call.tr_id
                == "VTTC0011U"@
            &&& call.tr_cont is None
            &&& call.fields.len() == 7
            &&& call.fields[0] == ("CANO"@, config.cano)
            &&& call.fields[1] == ("ACNT_PRDT_CD"@, config.product_code)
            &&& call.fields[2] == ("PDNO"@, ticker)
            &&& call.fields[3] == ("ORD_DVSN"@, "00"@)
            &&& call.fields[4] == ("ORD_QTY"@, digits(order.shares as nat))
            &&& call.fields[5] == ("ORD_UNPR"@, decimal_text(normal_of(price)))
            &&& call.fields[6] == ("EXCG_ID_DVSN_CD"@, "KRX"@)
        }),
{
}

/// A real account never places a domestic order, whatever the order; a paper one places every
/// order with a limit price, and no other.
pub proof fn law_real_accounts_place_nothing(config: KisConfigView, order: IntentView)
    ensures
        refusal(config, order) is None <==> config.environment == KisEnv::Paper && order.limit
            is Some,
        config.environment == KisEnv::Real ==> refusal(config, order)->0 is Unsupported,
        config.environment == KisEnv::Paper && order.limit is None ==> refusal(config, order)->0
            is Broker,
{
}

/// The price of an execution is its value over its shares, and an error unless that is
/// positive.
pub proof fn law_a_derived_price_is_value_over_shares(ticker: Seq<char>, amount: Dec, shares: u32)
    ensures
        derived_price(ticker, amount, shares) is Ok <==> (decimal_quotient(
            amount,
            (shares as i128, 0u32),
        )->0).0 > 0,
        derived_price(ticker, amount, shares) is Ok ==> derived_price(ticker, amount, shares)->Ok_0
            == decimal_quotient(amount, (shares as i128, 0u32))->0,
        derived_price(ticker, amount, shares) is Err ==> derived_price(
            ticker,
            amount,
            shares,
        )->Err_0 is Broker,
{
}

/// A domestic execution is a fill of a ticker exactly where it names the ticker and reports
/// shares, a value, a side and a day; it is then the fill of those at value over shares. An
/// execution of the ticker with shares is never passed over: it is a fill or an error.
pub proof fn law_a_domestic_execution_is_the_fill_it_reports(ticker: Seq<char>, row: DailyCcldRow)
    ensures
        ccld_fill(ticker, row) matches Ok(Some(fill)) ==> trimmed(row.pdno@) == ticker
            && shares_in(row.tot_ccld_qty@) == Ok::<u32, Failure>(fill.shares) && fill.shares > 0
            && number_in(row.tot_ccld_amt@) is Ok && decimal_quotient(
            number_in(row.tot_ccld_amt@)->Ok_0,
            (fill.shares as i128, 0u32),
        )->0 == fill.price && fill.price.0 > 0 && date_in(row.ord_dt@) == Ok::<
            crate::date::Civil,
            Failure,
        >(fill.at) && (fill.side == Side::Buy <==> trimmed(row.sll_buy_dvsn_cd@) == seq!['0', '2'])
            && (fill.side == Side::Sell <==> trimmed(row.sll_buy_dvsn_cd@) == seq!['0', '1']),
        ccld_fill(ticker, row) == Ok::<Option<FillView>, Failure>(None) <==> trimmed(row.pdno@)
            != ticker || shares_in(row.tot_ccld_qty@) == Ok::<u32, Failure>(0),
        trimmed(row.pdno@) == ticker && shares_in(row.tot_ccld_qty@) is Ok && shares_in(
            row.tot_ccld_qty@,
        )->Ok_0 > 0 && number_in(row.tot_ccld_amt@) is Ok && (decimal_quotient(
            number_in(row.tot_ccld_amt@)->Ok_0,
            (shares_in(row.tot_ccld_qty@)->Ok_0 as i128, 0u32),
        )->0).0 > 0 && (trimmed(row.sll_buy_dvsn_cd@) == seq!['0', '2'] || trimmed(
            row.sll_buy_dvsn_cd@,
        ) == seq!['0', '1']) && date_in(row.ord_dt@) is Ok ==> ccld_fill(ticker, row) is Ok
            && ccld_fill(ticker, row)->Ok_0 is Some,
{
    law_sides_are_read_from_two_codes(row.sll_buy_dvsn_cd@, "KIS domestic"@);
}

/// Domestic executions are read one after another: those of two lists in a row are those of
/// the first and then those of the second, and the first error ends the reading.
pub proof fn law_domestic_executions_are_read_in_order(
    ticker: Seq<char>,
    a: Seq<DailyCcldRow>,
    b: Seq<DailyCcldRow>,
)
    ensures
        ccld_fills(ticker, a) is Ok && ccld_fills(ticker, b) is Ok ==> ccld_fills(ticker, a + b)
            == Ok::<Seq<FillView>, Failure>(
            ccld_fills(ticker, a)->Ok_0 + ccld_fills(ticker, b)->Ok_0,
        ),
        ccld_fills(ticker, a) is Err ==> ccld_fills(ticker, a + b) == ccld_fills(ticker, a),
        ccld_fills(ticker, a) is Ok && ccld_fills(ticker, b) is Err ==> ccld_fills(ticker, a + b)
            == ccld_fills(ticker, b),
    decreases b.len(),
{
    if b.len() == 0 {
        assert(a + b =~= a);
        if ccld_fills(ticker, a) is Ok {
            assert(ccld_fills(ticker, a)->Ok_0 + ccld_fills(ticker, b)->Ok_0 =~= ccld_fills(
                ticker,
                a,
            )->Ok_0);
        }
    } else {
        law_domestic_executions_are_read_in_order(ticker, a, b.drop_last());
        assert((a + b).drop_last() =~= a + b.drop_last());
        assert((a + b).last() == b.last());
        if ccld_fills(ticker, a) is Ok && ccld_fills(ticker, b) is Ok {
            assert(ccld_fills(ticker, a + b)->Ok_0 =~= ccld_fills(ticker, a)->Ok_0 + ccld_fills(
                ticker,
                b,
            )->Ok_0);
        }
    }
}

/// A single domestic execution gives its own fill, or nothing, or its error.
pub proof fn law_one_domestic_execution_gives_its_fill(ticker: Seq<char>, row: DailyCcldRow)
    ensures
        ccld_fill(ticker, row) is Err <==> ccld_fills(ticker, seq![row]) is Err,
        ccld_fill(ticker, row) is Err ==> ccld_fills(ticker, seq![row])->Err_0 == ccld_fill(
            ticker,
            row,
        )->Err_0,
        ccld_fill(ticker, row) == Ok::<Option<FillView>, Failure>(None) ==> ccld_fills(
            ticker,
            seq![row],
        ) == Ok::<Seq<FillView>, Failure>(Seq::empty()),
        ccld_fill(ticker, row) matches Ok(Some(fill)) ==> ccld_fills(ticker, seq![row]) == Ok::<
            Seq<FillView>,
            Failure,
        >(seq![fill]),
{
    let one = seq![row];
    assert(one.drop_last() =~= Seq::<DailyCcldRow>::empty());
    assert(ccld_fills(ticker, one.drop_last()) == Ok::<Seq<FillView>, Failure>(Seq::empty()));
    if ccld_fill(ticker, row) is Ok && ccld_fill(ticker, row)->Ok_0 is Some {
        let fill = ccld_fill(ticker, row)->Ok_0->0;
        assert(Seq::<FillView>::empty().push(fill) =~= seq![fill]);
    }
}

/// Domestic lots are read one after another, each into its own holding: those of two lists in
/// a row are those of the first and then those of the second, and the first error ends the
/// reading.
pub proof fn law_domestic_lots_are_read_in_order(a: Seq<DomesticLot>, b: Seq<DomesticLot>)
    ensures
        domestic_holdings(a) is Ok && domestic_holdings(b) is Ok ==> domestic_holdings(a + b)
            == Ok::<Seq<HoldingView>, Failure>(
            domestic_holdings(a)->Ok_0 + domestic_holdings(b)->Ok_0,
        ),
        domestic_holdings(a) is Err ==> domestic_holdings(a + b) == domestic_holdings(a),
        domestic_holdings(a) is Ok && domestic_holdings(b) is Err ==> domestic_holdings(a + b)
            == domestic_holdings(b),
    decreases b.len(),
{
    if b.len() == 0 {
        assert(a + b =~= a);
        if domestic_holdings(a) is Ok {
            assert(domestic_holdings(a)->Ok_0 + domestic_holdings(b)->Ok_0 =~= domestic_holdings(
                a,
            )->Ok_0);
        }
    } else {
        law_domestic_lots_are_read_in_order(a, b.drop_last());
        assert((a + b).drop_last() =~= a + b.drop_last());
        assert((a + b).last() == b.last());
        if domestic_holdings(a) is Ok && domestic_holdings(b) is Ok {
            assert(domestic_holdings(a + b)->Ok_0 =~= domestic_holdings(a)->Ok_0
                + domestic_holdings(b)->Ok_0);
        }
    }
}

/// A single domestic lot gives its own holding, nothing where it has no shares, or an error.
pub proof fn law_one_domestic_lot_gives_its_holding(lot: DomesticLot)
    ensures
        shares_in(lot.hldg_qty@) == Ok::<u32, Failure>(0) ==> domestic_holdings(seq![lot]) == Ok::<
            Seq<HoldingView>,
            Failure,
        >(Seq::empty()),
        domestic_holdings(seq![lot]) matches Ok(held) ==> held.len() > 0 ==> held.len() == 1
            && held[0].ticker == crate::text::uppercase(trimmed(lot.pdno@)) && shares_in(
            lot.hldg_qty@,
        ) == Ok::<u32, Failure>(held[0].shares) && crate::http::price_in(lot.pchs_avg_pric@)
            == Ok::<Option<Dec>, Failure>(held[0].avg_price),
        domestic_holdings(seq![lot]) is Ok && shares_in(lot.hldg_qty@) != Ok::<u32, Failure>(0)
            ==> domestic_holdings(seq![lot])->Ok_0.len() == 1,
        shares_in(lot.hldg_qty@) is Ok && crate::http::price_in(lot.pchs_avg_pric@) is Ok
            ==> domestic_holdings(seq![lot]) is Ok,
{
    let one = seq![lot];
    assert(one.drop_last() =~= Seq::<DomesticLot>::empty());
    assert(domestic_holdings(one.drop_last()) == Ok::<Seq<HoldingView>, Failure>(Seq::empty()));
}

/// The deposit is that of the first summary; none, or a blank one, is no cash.
pub proof fn law_the_deposit_is_that_of_the_first_summary(summaries: Seq<String>)
    ensures
        summaries.len() > 0 && trimmed(summaries[0]@).len() > 0 ==> deposit_text(summaries)
            == trimmed(summaries[0]@),
        summaries.len() == 0 || trimmed(summaries[0]@).len() == 0 ==> deposit_text(summaries)
            == seq!['0'],
{
    reveal_strlit("");
    reveal_strlit("0");
    assert("0"@ =~= seq!['0']);
}

/// The adapter trades domestic stocks, and its account is a paper one exactly in the paper
/// environment.
pub proof fn law_domestic_account_abilities(broker: KisDomesticBroker)
    ensures
        broker.broker() == BrokerId::Kis,
        broker.abilities().order_placement,
        !broker.abilities().overseas,
        !broker.abilities().realtime_quotes,
        broker.abilities().paper_account <==> broker@.environment == KisEnv::Paper,
{
}

} // verus!

//! What both KIS (Korea Investment & Securities) adapters build on: the account
//! configuration, the shape of a request, the result guard, the scan over pages of
//! executions, and the number of an accepted order.

use crate::error::{DomainError, Failure};
use crate::http::{fields_of, push_field, Field};
use crate::market::OrderId;
use crate::position::{fills_of, Fill, FillView};
use crate::text::{
    fixed_hex, fixed_hex_text, join2, join3, join5, same, trim, trimmed,
};
use vstd::prelude::*;

verus! {

/// KIS environment: real trading or the paper-trading server.
#[derive(Clone, Copy, Debug, PartialEq, Eq, Structural)]
pub enum KisEnv {
    Real,
    Paper,
}

/// The host that serves an environment.
pub open spec fn kis_host(env: KisEnv) -> Seq<char> {
    match env {
        KisEnv::Real => "https://openapi.koreainvestment.com:9443"@,
        KisEnv::Paper => "https://openapivts.koreainvestment.com:29443"@,
    }
}

/// The word for an environment in a file name.
pub open spec fn kis_env_word(env: KisEnv) -> Seq<char> {
    match env {
        KisEnv::Real => "real"@,
        KisEnv::Paper => "paper"@,
    }
}

/// The milliseconds between two requests in an environment.
pub open spec fn spacing_of(env: KisEnv) -> int {
    match env {
        KisEnv::Real => 60,
        KisEnv::Paper => 1100,
    }
}

impl KisEnv {
    /// The host that serves the environment.
    pub fn base_url(self) -> (r: &'static str)
        ensures
            r@ == kis_host(self),
    {
        match self {
            KisEnv::Real => "https://openapi.koreainvestment.com:9443",
            KisEnv::Paper => "https://openapivts.koreainvestment.com:29443",
        }
    }

    /// The milliseconds between two requests: the paper server takes about one a second, the
    /// real one about twenty.
    pub fn request_interval_millis(self) -> (r: u64)
        ensures
            r == spacing_of(self),
            r == match self {
                KisEnv::Real => 60u64,
                KisEnv::Paper => 1100u64,
            },
    {
        match self {
            KisEnv::Real => 60,
            KisEnv::Paper => 1100,
        }
    }
}

/// US exchange of a KIS instance.
#[derive(Clone, Copy, Debug, PartialEq, Eq, Structural)]
pub enum KisExchange {
    Nasdaq,
    Nyse,
    Amex,
}

/// The code of an exchange at the quote endpoint.
pub open spec fn quote_code_of(exchange: KisExchange) -> Seq<char> {
    match exchange {
        KisExchange::Nasdaq => "NAS"@,
        KisExchange::Nyse => "NYS"@,
        KisExchange::Amex => "AMS"@,
    }
}

/// The code of an exchange at the balance and order endpoints.
pub open spec fn excg_code_of(exchange: KisExchange) -> Seq<char> {
    match exchange {
        KisExchange::Nasdaq => "NASD"@,
        KisExchange::Nyse => "NYSE"@,
        KisExchange::Amex => "AMEX"@,
    }
}

impl KisExchange {
    /// 3-letter code used by the quote endpoint.
    pub fn quote_code(self) -> (r: &'static str)
        ensures
            r@ == quote_code_of(self),
    {
        match self {
            KisExchange::Nasdaq => "NAS",
            KisExchange::Nyse => "NYS",
            KisExchange::Amex => "AMS",
        }
    }

    /// 4-letter code used by the balance and order endpoints.
    pub fn excg_code_4(self) -> (r: &'static str)
        ensures
            r@ == excg_code_of(self),
    {
        match self {
            KisExchange::Nasdaq => "NASD",
            KisExchange::Nyse => "NYSE",
            KisExchange::Amex => "AMEX",
        }
    }
}

/// Configuration for a KIS adapter instance.
#[derive(Debug)]
pub struct KisConfig {
    pub environment: KisEnv,
    pub app_key: String,
    pub app_secret: String,
    /// Account number, first 8 digits.
    pub cano: String,
    /// Account product code, last 2 digits.
    pub product_code: String,
    /// Exchange for quotes and balance.
    pub exchange: KisExchange,
}

/// The model of a [`KisConfig`].
pub struct KisConfigView {
    pub environment: KisEnv,
    pub app_key: Seq<char>,
    pub app_secret: Seq<char>,
    pub cano: Seq<char>,
    pub product_code: Seq<char>,
    pub exchange: KisExchange,
}

impl View for KisConfig {
    type V = KisConfigView;

    open spec fn view(&self) -> KisConfigView {
        KisConfigView {
            environment: self.environment,
            app_key: self.app_key@,
            app_secret: self.app_secret@,
            cano: self.cano@,
            product_code: self.product_code@,
            exchange: self.exchange,
        }
    }
}

impl Clone for KisConfig {
    fn clone(&self) -> (r: KisConfig)
        ensures
            r@ == self@,
    {
        KisConfig {
            environment: self.environment,
            app_key: self.app_key.clone(),
            app_secret: self.app_secret.clone(),
            cano: self.cano.clone(),
            product_code: self.product_code.clone(),
            exchange: self.exchange,
        }
    }
}

/// How a request is sent: with its fields in the query, or in a body.
#[derive(Clone, Copy, Debug, PartialEq, Eq, Structural)]
pub enum Method {
    Get,
    Post,
}

/// A request to a KIS server, up to the host and the credentials.
#[derive(Debug)]
pub struct KisRequest {
    pub method: Method,
    pub path: &'static str,
    pub tr_id: &'static str,
    /// The continuation header, on requests that are read page by page.
    pub tr_cont: Option<String>,
    pub fields: Vec<Field>,
}

/// The model of a [`KisRequest`].
pub struct KisRequestView {
    pub method: Method,
    pub path: Seq<char>,
    pub tr_id: Seq<char>,
    pub tr_cont: Option<Seq<char>>,
    pub fields: Seq<(Seq<char>, Seq<char>)>,
}

/// The characters of an optional text.
pub open spec fn text_of(s: Option<String>) -> Option<Seq<char>> {
    match s {
        Some(s) => Some(s@),
        None => None,
    }
}

impl View for KisRequest {
    type V = KisRequestView;

    open spec fn view(&self) -> KisRequestView {
        KisRequestView {
            method: self.method,
            path: self.path@,
            tr_id: self.tr_id@,
            tr_cont: text_of(self.tr_cont),
            fields: fields_of(self.fields@),
        }
    }
}

/// The headers of a request: the bearer token, the application's key and secret, the
/// transaction id, the customer type, and the continuation where there is one.
pub open spec fn headers_of(config: KisConfigView, request: KisRequestView, token: Seq<char>) -> Seq<
    (Seq<char>, Seq<char>),
> {
    let standard = seq![
        ("authorization"@, "Bearer "@ + token),
        ("appkey"@, config.app_key),
        ("appsecret"@, config.app_secret),
        ("tr_id"@, request.tr_id),
        ("custtype"@, "P"@),
    ];
    match request.tr_cont {
        Some(c) => standard.push(("tr_cont"@, c)),
        None => standard,
    }
}

/// The headers of an authenticated request. The customer type is `P` for individual and
/// corporate own-account customers alike.
pub fn authed(config: &KisConfig, request: &KisRequest, token: &str) -> (r: Vec<Field>)
    ensures
        fields_of(r@) == headers_of(config@, request@, token@),
{
    let mut headers: Vec<Field> = Vec::new();
    assert(fields_of(headers@) =~= Seq::<(Seq<char>, Seq<char>)>::empty());
    let bearer = join2("Bearer ", token);
    push_field(&mut headers, "authorization", bearer.as_str());
    push_field(&mut headers, "appkey", config.app_key.as_str());
    push_field(&mut headers, "appsecret", config.app_secret.as_str());
    push_field(&mut headers, "tr_id", request.tr_id);
    push_field(&mut headers, "custtype", "P");
    if let Some(c) = &request.tr_cont {
        push_field(&mut headers, "tr_cont", c.as_str());
    }
    assert(fields_of(headers@) =~= headers_of(config@, request@, token@));
    headers
}

/// The body of a token request.
pub open spec fn token_fields(config: KisConfigView) -> Seq<(Seq<char>, Seq<char>)> {
    seq![
        ("grant_type"@, "client_credentials"@),
        ("appkey"@, config.app_key),
        ("appsecret"@, config.app_secret),
    ]
}

/// The body of a token request, to be posted to `/oauth2/tokenP`.
pub fn token_body(config: &KisConfig) -> (r: Vec<Field>)
    ensures
        fields_of(r@) == token_fields(config@),
{
    let mut fields: Vec<Field> = Vec::new();
    assert(fields_of(fields@) =~= Seq::<(Seq<char>, Seq<char>)>::empty());
    push_field(&mut fields, "grant_type", "client_credentials");
    push_field(&mut fields, "appkey", config.app_key.as_str());
    push_field(&mut fields, "appsecret", config.app_secret.as_str());
    assert(fields_of(fields@) =~= token_fields(config@));
    fields
}

/// The name of a cache file: what it holds, the environment, and a digest of the
/// application's key.
pub open spec fn cache_name(kind: Seq<char>, env: KisEnv, digest: u64) -> Seq<char> {
    kind + "-kis-"@ + kis_env_word(env) + "-"@ + fixed_hex(digest as nat, 16) + ".json"@
}

/// The digest of a key.
pub uninterp spec fn key_hash(key: Seq<char>) -> u64;

/// `BuildHasher::hash_one` of std's default hasher. Claimed: the digest is a function of the
/// key, since every hasher made by `default` is the same. Not claimed: what it is, or that
/// different keys have different digests.
#[verifier::external_body]
fn key_digest(key: &str) -> (r: u64)
    ensures
        r == key_hash(key@),
{
    std::hash::BuildHasher::hash_one(
        &std::hash::BuildHasherDefault::<std::collections::hash_map::DefaultHasher>::default(),
        key,
    )
}

/// The name of the cache file for a digest of the application's key.
pub fn cache_filename(env: KisEnv, kind: &str, digest: u64) -> (r: String)
    ensures
        r@ == cache_name(kind@, env, digest),
{
    let word = match env {
        KisEnv::Paper => "paper",
        KisEnv::Real => "real",
    };
    let hex = fixed_hex_text(digest, 16);
    let front = join5(kind, "-kis-", word, "-", hex.as_str());
    join2(front.as_str(), ".json")
}

/// The name of a cache file. It depends on the environment and the application's key alone,
/// so the adapters of one account share their token and their request spacing.
pub fn kis_cache_filename(config: &KisConfig, kind: &str) -> (r: String)
    ensures
        r@ == cache_name(kind@, config@.environment, key_hash(config@.app_key)),
{
    let digest: u64 = key_digest(config.app_key.as_str());
    cache_filename(config.environment, kind, digest)
}

/// What a result code says: `0` is success.
pub open spec fn rt_verdict(op: Seq<char>, rt_cd: Seq<char>, msg1: Seq<char>) -> Result<
    (),
    Failure,
> {
    if rt_cd == "0"@ {
        Ok(())
    } else {
        Err(Failure::Broker("KIS "@ + op + " rt_cd="@ + rt_cd + " "@ + msg1))
    }
}

/// The view of an outcome without a value.
pub open spec fn unit_result(r: Result<(), DomainError>) -> Result<(), Failure> {
    match r {
        Ok(()) => Ok(()),
        Err(e) => Err(e@),
    }
}

/// Guard a response's result code. `op` names the operation in the error.
pub fn check_rt(op: &str, rt_cd: &str, msg1: &str) -> (r: Result<(), DomainError>)
    ensures
        unit_result(r) == rt_verdict(op@, rt_cd@, msg1@),
{
    if same(rt_cd, "0") {
        return Ok(());
    }
    let front = join5("KIS ", op, " rt_cd=", rt_cd, " ");
    Err(DomainError::Broker(join2(front.as_str(), msg1)))
}

/// The identifier of an accepted order: the order number, behind the forwarding organisation
/// where there is one.
pub open spec fn order_number(org: Seq<char>, number: Seq<char>) -> Result<Seq<char>, Failure> {
    let odno = trimmed(number);
    let prefix = trimmed(org);
    if odno.len() == 0 {
        Err(Failure::Broker("KIS order accepted but returned no order number"@))
    } else if prefix.len() == 0 {
        Ok(odno)
    } else {
        Ok(prefix + "/"@ + odno)
    }
}

/// The view of an outcome that is an order identifier.
pub open spec fn order_result(r: Result<OrderId, DomainError>) -> Result<Seq<char>, Failure> {
    match r {
        Ok(id) => Ok(id@),
        Err(e) => Err(e@),
    }
}

/// Read the identifier of an accepted order.
pub fn read_order_number(org: &str, number: &str) -> (r: Result<OrderId, DomainError>)
    ensures
        order_result(r) == order_number(org@, number@),
{
    let odno = trim(number);
    if odno.is_empty() {
        return Err(
            DomainError::Broker("KIS order accepted but returned no order number".to_owned()),
        );
    }
    let prefix = trim(org);
    if prefix.is_empty() {
        Ok(OrderId::new(odno))
    } else {
        Ok(OrderId::new(join3(prefix, "/", odno).as_str()))
    }
}

/// How many pages of executions are read at most. Reaching the cap is an error: fills that
/// are cut off silently would make the strategy over-buy.
pub const MAX_PAGES: usize = 50;

/// Whether a continuation header says that more pages follow.
pub open spec fn says_more(header: Option<Seq<char>>) -> bool {
    header == Some("M"@) || header == Some("F"@)
}

/// Whether a continuation header says that more pages follow.
pub fn more_follows(header: Option<&str>) -> (r: bool)
    ensures
        r == says_more(
            match header {
                Some(h) => Some(h@),
                None => None,
            },
        ),
{
    match header {
        Some(h) => same(h, "M") || same(h, "F"),
        None => false,
    }
}

/// A scan over pages of executions: what was read, and where to go on.
#[derive(Debug)]
pub struct FillScan {
    fills: Vec<Fill>,
    pages: usize,
    fk: String,
    nk: String,
    tr_cont: String,
}

/// The model of a [`FillScan`].
pub struct ScanView {
    pub fills: Seq<FillView>,
    pub pages: nat,
    pub fk: Seq<char>,
    pub nk: Seq<char>,
    pub tr_cont: Seq<char>,
}

impl View for FillScan {
    type V = ScanView;

    closed spec fn view(&self) -> ScanView {
        ScanView {
            fills: fills_of(self.fills@),
            pages: self.pages as nat,
            fk: self.fk@,
            nk: self.nk@,
            tr_cont: self.tr_cont@,
        }
    }
}

/// What to do after a page.
#[derive(Clone, Copy, Debug, PartialEq, Eq, Structural)]
pub enum ScanStep {
    /// All executions are read.
    Done,
    /// Ask for the next page.
    NextPage,
    /// More pages follow than are read.
    TooManyPages,
}

/// A scan after one more page.
pub open spec fn scan_after(
    scan: ScanView,
    page: Seq<FillView>,
    more: bool,
    fk: Seq<char>,
    nk: Seq<char>,
) -> (ScanView, ScanStep) {
    let read = ScanView { fills: scan.fills + page, pages: scan.pages + 1, ..scan };
    if !more {
        (read, ScanStep::Done)
    } else if read.pages >= MAX_PAGES {
        (read, ScanStep::TooManyPages)
    } else {
        (
            ScanView { fk: trimmed(fk), nk: trimmed(nk), tr_cont: "N"@, ..read },
            ScanStep::NextPage,
        )
    }
}

impl FillScan {
    #[verifier::type_invariant]
    spec fn inv(self) -> bool {
        self.pages <= MAX_PAGES
    }

    /// A scan that has read nothing.
    pub fn new() -> (r: FillScan)
        ensures
            r@ == (ScanView {
                fills: Seq::empty(),
                pages: 0,
                fk: Seq::empty(),
                nk: Seq::empty(),
                tr_cont: Seq::empty(),
            }),
    {
        let r = FillScan {
            fills: Vec::new(),
            pages: 0,
            fk: String::new(),
            nk: String::new(),
            tr_cont: String::new(),
        };
        assert(r@.fills =~= Seq::<FillView>::empty());
        assert(r@.fk =~= Seq::<char>::empty());
        r
    }

    /// The continuation header of the next request.
    pub fn tr_cont(&self) -> (r: &str)
        ensures
            r@ == self@.tr_cont,
    {
        self.tr_cont.as_str()
    }

    /// The first continuation key of the next request.
    pub fn fk(&self) -> (r: &str)
        ensures
            r@ == self@.fk,
    {
        self.fk.as_str()
    }

    /// The second continuation key of the next request.
    pub fn nk(&self) -> (r: &str)
        ensures
            r@ == self@.nk,
    {
        self.nk.as_str()
    }

    /// The executions that were read.
    pub fn into_fills(self) -> (r: Vec<Fill>)
        ensures
            fills_of(r@) == self@.fills,
    {
        self.fills
    }

    /// Take in a page of executions.
    pub fn take_page(self, page: Vec<Fill>, more: bool, fk: &str, nk: &str) -> (r: (
        FillScan,
        ScanStep,
    ))
        requires
            self@.pages < MAX_PAGES,
        ensures
            (r.0@, r.1) == scan_after(self@, fills_of(page@), more, fk@, nk@),
    {
        let ghost before = self@;
        let ghost new = fills_of(page@);
        let mut page = page;
        let mut fills = self.fills;
        fills.append(&mut page);
        assert(fills_of(fills@) =~= before.fills + new);
        let pages: usize = self.pages + 1;
        if !more {
            return (
                FillScan { fills, pages, fk: self.fk, nk: self.nk, tr_cont: self.tr_cont },
                ScanStep::Done,
            );
        }
        if pages >= MAX_PAGES {
            return (
                FillScan { fills, pages, fk: self.fk, nk: self.nk, tr_cont: self.tr_cont },
                ScanStep::TooManyPages,
            );
        }
        (
            FillScan {
                fills,
                pages,
                fk: trim(fk).to_owned(),
                nk: trim(nk).to_owned(),
                tr_cont: "N".to_owned(),
            },
            ScanStep::NextPage,
        )
    }
}

/// A scan is complete only if the last page said that none follows, never cuts off what it
/// has read, and stops at the cap.
pub proof fn law_scans_are_complete_or_fail(
    scan: ScanView,
    page: Seq<FillView>,
    more: bool,
    fk: Seq<char>,
    nk: Seq<char>,
)
    requires
        scan.pages < MAX_PAGES,
    ensures
        ({
            let (after, step) = scan_after(scan, page, more, fk, nk);
            &&& after.fills == scan.fills + page
            &&& step == ScanStep::Done <==> !more
            &&& step == ScanStep::NextPage ==> after.pages < MAX_PAGES
            &&& step == ScanStep::TooManyPages <==> more && scan.pages + 1 == MAX_PAGES
        }),
{
}

/// A page of executions: its fills, whether more pages follow, and where to go on.
pub struct Page {
    pub fills: Seq<FillView>,
    pub more: bool,
    pub fk: Seq<char>,
    pub nk: Seq<char>,
}

/// A scan after a number of pages.
pub open spec fn scan_of(start: ScanView, pages: Seq<Page>) -> ScanView
    decreases pages.len(),
{
    if pages.len() == 0 {
        start
    } else {
        let page = pages.last();
        scan_after(
            scan_of(start, pages.drop_last()),
            page.fills,
            page.more,
            page.fk,
            page.nk,
        ).0
    }
}

/// The fills of a number of pages, one after another.
pub open spec fn all_fills(pages: Seq<Page>) -> Seq<FillView>
    decreases pages.len(),
{
    if pages.len() == 0 {
        Seq::empty()
    } else {
        all_fills(pages.drop_last()) + pages.last().fills
    }
}

/// A scan holds the fills of all the pages that it has read, each once and in their order.
pub proof fn law_scans_keep_every_page(start: ScanView, pages: Seq<Page>)
    ensures
        scan_of(start, pages).fills == start.fills + all_fills(pages),
        scan_of(start, pages).pages == start.pages + pages.len(),
    decreases pages.len(),
{
    if pages.len() > 0 {
        law_scans_keep_every_page(start, pages.drop_last());
    }
}

/// The hosts, the words and the exchange codes are the literal ones, and no two environments
/// or exchanges share one.
pub proof fn law_hosts_and_codes_are_told_apart(a: KisExchange, b: KisExchange)
    ensures
        kis_host(KisEnv::Real) == "https://openapi.koreainvestment.com:9443"@,
        kis_host(KisEnv::Paper) == "https://openapivts.koreainvestment.com:29443"@,
        kis_host(KisEnv::Real) != kis_host(KisEnv::Paper),
        kis_env_word(KisEnv::Real) == "real"@,
        kis_env_word(KisEnv::Paper) == "paper"@,
        quote_code_of(KisExchange::Nasdaq) == "NAS"@,
        quote_code_of(KisExchange::Nyse) == "NYS"@,
        quote_code_of(KisExchange::Amex) == "AMS"@,
        excg_code_of(KisExchange::Nasdaq) == "NASD"@,
        excg_code_of(KisExchange::Nyse) == "NYSE"@,
        excg_code_of(KisExchange::Amex) == "AMEX"@,
        a != b ==> quote_code_of(a) != quote_code_of(b) && excg_code_of(a) != excg_code_of(b),
        quote_code_of(a).len() == 3,
        excg_code_of(a).len() == 4,
{
    reveal_strlit("https://openapi.koreainvestment.com:9443");
    reveal_strlit("https://openapivts.koreainvestment.com:29443");
    reveal_strlit("NAS");
    reveal_strlit("NYS");
    reveal_strlit("AMS");
    reveal_strlit("NASD");
    reveal_strlit("NYSE");
    reveal_strlit("AMEX");
    assert(kis_host(KisEnv::Real)[15] == '.');
    assert(kis_host(KisEnv::Paper)[15] == 'v');
    assert(quote_code_of(a)[1] == match a {
        KisExchange::Nasdaq => 'A',
        KisExchange::Nyse => 'Y',
        KisExchange::Amex => 'M',
    });
    assert(quote_code_of(b)[1] == match b {
        KisExchange::Nasdaq => 'A',
        KisExchange::Nyse => 'Y',
        KisExchange::Amex => 'M',
    });
    assert(excg_code_of(a)[1] == match a {
        KisExchange::Nasdaq => 'A',
        KisExchange::Nyse => 'Y',
        KisExchange::Amex => 'M',
    });
    assert(excg_code_of(b)[1] == match b {
        KisExchange::Nasdaq => 'A',
        KisExchange::Nyse => 'Y',
        KisExchange::Amex => 'M',
    });
}

/// Every authenticated request carries the token, the key, the secret, its own transaction id
/// and the customer type, in this order; the continuation is sent where the request has one,
/// and only there.
pub proof fn law_headers_carry_the_credentials(
    config: KisConfigView,
    request: KisRequestView,
    token: Seq<char>,
)
    ensures
        headers_of(config, request, token).len() == if request.tr_cont is Some {
            6int
        } else {
            5int
        },
        headers_of(config, request, token)[0] == ("authorization"@, "Bearer "@ + token),
        headers_of(config, request, token)[1] == ("appkey"@, config.app_key),
        headers_of(config, request, token)[2] == ("appsecret"@, config.app_secret),
        headers_of(config, request, token)[3] == ("tr_id"@, request.tr_id),
        headers_of(config, request, token)[4] == ("custtype"@, "P"@),
        request.tr_cont is Some ==> headers_of(config, request, token)[5] == (
            "tr_cont"@,
            request.tr_cont->0,
        ),
{
}

/// A token is asked for with the client's own key and secret.
pub proof fn law_token_requests_carry_key_and_secret(config: KisConfigView)
    ensures
        token_fields(config).len() == 3,
        token_fields(config)[0] == ("grant_type"@, "client_credentials"@),
        token_fields(config)[1] == ("appkey"@, config.app_key),
        token_fields(config)[2] == ("appsecret"@, config.app_secret),
{
}

/// The name of a cache file starts with its kind and tells real trading from paper trading:
/// the two never share a file of a kind, whatever the digests.
pub proof fn law_environments_share_no_cache(kind: Seq<char>, a: u64, b: u64)
    ensures
        cache_name(kind, KisEnv::Real, a) != cache_name(kind, KisEnv::Paper, b),
        cache_name(kind, KisEnv::Real, a) == kind + "-kis-real-"@ + fixed_hex(a as nat, 16)
            + ".json"@,
        cache_name(kind, KisEnv::Paper, b) == kind + "-kis-paper-"@ + fixed_hex(b as nat, 16)
            + ".json"@,
{
    reveal_strlit("-kis-");
    reveal_strlit("-");
    reveal_strlit("real");
    reveal_strlit("paper");
    reveal_strlit("-kis-real-");
    reveal_strlit("-kis-paper-");
    assert(cache_name(kind, KisEnv::Real, a) =~= kind + "-kis-real-"@ + fixed_hex(a as nat, 16)
        + ".json"@);
    assert(cache_name(kind, KisEnv::Paper, b) =~= kind + "-kis-paper-"@ + fixed_hex(b as nat, 16)
        + ".json"@);
    let at = kind.len() as int + 5;
    assert(cache_name(kind, KisEnv::Real, a)[at] == 'r');
    assert(cache_name(kind, KisEnv::Paper, b)[at] == 'p');
}

/// The result code `0` is success and every other one a broker error that quotes the
/// operation, the code and the message.
pub proof fn law_zero_alone_is_success(op: Seq<char>, rt_cd: Seq<char>, msg1: Seq<char>)
    ensures
        rt_verdict(op, rt_cd, msg1) is Ok <==> rt_cd == seq!['0'],
        rt_verdict(op, rt_cd, msg1) is Err ==> rt_verdict(op, rt_cd, msg1)->Err_0
            == Failure::Broker("KIS "@ + op + " rt_cd="@ + rt_cd + " "@ + msg1),
{
    reveal_strlit("0");
    assert("0"@ =~= seq!['0']);
}

/// An accepted order is identified exactly where its number is not blank. The identifier ends
/// with the trimmed number, and is that alone where the organisation is blank.
pub proof fn law_accepted_orders_keep_their_number(org: Seq<char>, number: Seq<char>)
    ensures
        order_number(org, number) is Ok <==> trimmed(number).len() > 0,
        order_number(org, number) is Err ==> order_number(org, number)->Err_0 is Broker,
        order_number(org, number) is Ok && trimmed(org).len() == 0 ==> order_number(
            org,
            number,
        )->Ok_0 == trimmed(number),
        order_number(org, number) is Ok && trimmed(org).len() > 0 ==> order_number(
            org,
            number,
        )->Ok_0 == trimmed(org) + seq!['/'] + trimmed(number),
{
    reveal_strlit("/");
    assert("/"@ =~= seq!['/']);
}

/// `M` and `F` say that more follows, and nothing else does.
pub proof fn law_more_follows_on_two_letters(header: Option<Seq<char>>)
    ensures
        says_more(header) <==> header is Some && (header->0 == seq!['M'] || header->0
            == seq!['F']),
{
    reveal_strlit("M");
    reveal_strlit("F");
    assert("M"@ =~= seq!['M']);
    assert("F"@ =~= seq!['F']);
}

/// Every page is kept behind those before it and counted once. The scan ends where no more
/// follows; it goes on below fifty pages, with the trimmed keys of this page and `N`; and at
/// fifty it is an error rather than a shorter history.
pub proof fn law_no_page_is_lost(
    scan: ScanView,
    page: Seq<FillView>,
    more: bool,
    fk: Seq<char>,
    nk: Seq<char>,
)
    ensures
        scan_after(scan, page, more, fk, nk).0.fills == scan.fills + page,
        scan_after(scan, page, more, fk, nk).0.pages == scan.pages + 1,
        scan_after(scan, page, more, fk, nk).1 == ScanStep::Done <==> !more,
        scan_after(scan, page, more, fk, nk).1 == ScanStep::NextPage <==> more && scan.pages + 1
            < 50,
        scan_after(scan, page, more, fk, nk).1 == ScanStep::TooManyPages <==> more && scan.pages
            + 1 >= 50,
        scan_after(scan, page, more, fk, nk).1 == ScanStep::NextPage ==> scan_after(
            scan,
            page,
            more,
            fk,
            nk,
        ).0.fk == trimmed(fk) && scan_after(scan, page, more, fk, nk).0.nk == trimmed(nk)
            && scan_after(scan, page, more, fk, nk).0.tr_cont == "N"@,
{
}

/// Requests are 60 milliseconds apart in real trading and 1,100 on paper: within a second at
/// most one reaches the paper server, and no more than seventeen the real one.
pub proof fn law_requests_keep_their_distance(env: KisEnv)
    ensures
        spacing_of(KisEnv::Real) == 60,
        spacing_of(KisEnv::Paper) == 1100,
        spacing_of(KisEnv::Paper) > 1000,
        16 * spacing_of(KisEnv::Real) < 1000 < 17 * spacing_of(KisEnv::Real),
{
}

/// The models of a configuration and of a request show every field of them.
pub proof fn law_the_models_of_configurations_and_requests(config: KisConfig, request: KisRequest)
    ensures
        config@.environment == config.environment,
        config@.app_key == config.app_key@,
        config@.app_secret == config.app_secret@,
        config@.cano == config.cano@,
        config@.product_code == config.product_code@,
        config@.exchange == config.exchange,
        request@.method == request.method,
        request@.path == request.path@,
        request@.tr_id == request.tr_id@,
        request.tr_cont matches Some(c) ==> request@.tr_cont == Some(c@),
        request.tr_cont is None ==> request@.tr_cont is None,
        request@.fields.len() == request.fields@.len(),
        forall|i: int|
            0 <= i < request.fields@.len() ==> request@.fields[i] == (
                (#[trigger] request.fields@[i]).name@,
                request.fields@[i].value@,
            ),
{
}

} // verus!

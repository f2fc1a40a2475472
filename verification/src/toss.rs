//! Toss Securities adapter, read-only: overseas quotes and holdings.
//!
//! It has no order placement, no paper sandbox, and no execution history. Answers are JSON
//! documents whose wrapper differs a little from endpoint to endpoint.

use crate::date::Date;
use crate::decimal::{decimal_parsed, Dec};
use crate::error::{DomainError, Failure};
use crate::http::{
    fields_of, number_in, parse_decimal, parse_price_opt, parse_shares, price_in, push_field,
    shares_in, Field,
};
use crate::kis::{holdings_result, is_quote, money_result};
use crate::lookup::{first_at, lemma_first_at, lemma_is_absent, lemma_is_first};
use crate::market::{BrokerId, Quote, Ticker};
use crate::money::Money;
use crate::paper::holdings_of;
use crate::ports::{BrokerInfo, Capabilities};
use crate::position::{Fill, Holding, HoldingView};
use crate::text::{join2, join3, same, signed_digits, signed_text, trimmed, uppercase};
use vstd::prelude::*;

verus! {

/// A JSON document, as far as the adapter reads it.
#[derive(Debug)]
pub enum Json {
    Text(String),
    Array(Vec<Json>),
    Object(Vec<(String, Json)>),
    /// Null, a boolean, or a number.
    Other,
}

/// The keys of an object.
pub open spec fn keys_of(entries: Seq<(String, Json)>) -> Seq<Seq<char>> {
    Seq::new(entries.len(), |i: int| entries[i].0@)
}

/// The value under a key of an object.
pub open spec fn member(value: Json, key: Seq<char>) -> Option<Json> {
    match value {
        Json::Object(entries) => match first_at(keys_of(entries@), key) {
            Some(i) => Some(entries[i].1),
            None => None,
        },
        _ => None,
    }
}

/// The elements of an array.
pub open spec fn elements(value: Option<Json>) -> Option<Seq<Json>> {
    match value {
        Some(Json::Array(items)) => Some(items@),
        _ => None,
    }
}

/// The characters of a text.
pub open spec fn characters(value: Option<Json>) -> Option<Seq<char>> {
    match value {
        Some(Json::Text(s)) => Some(s@),
        _ => None,
    }
}

impl Json {
    /// The value under a key, if this is an object that has it.
    pub fn get(&self, key: &str) -> (r: Option<&Json>)
        ensures
            match r {
                Some(v) => member(*self, key@) == Some(*v),
                None => member(*self, key@) is None,
            },
    {
        match self {
            Json::Object(entries) => {
                let ghost keys = keys_of(entries@);
                let mut i: usize = 0;
                while i < entries.len()
                    invariant
                        i <= entries.len(),
                        *self == Json::Object(*entries),
                        keys == keys_of(entries@),
                        forall|j: int| 0 <= j < i ==> #[trigger] keys[j] != key@,
                    decreases entries.len() - i,
                {
                    assert(keys[i as int] == entries[i as int].0@);
                    if same(entries[i].0.as_str(), key) {
                        proof {
                            lemma_is_first(keys, key@, i as int);
                        }
                        return Some(&entries[i].1);
                    }
                    i += 1;
                }
                proof {
                    lemma_is_absent(keys, key@);
                }
                None
            },
            _ => None,
        }
    }

    /// The elements, if this is an array.
    pub fn as_array(&self) -> (r: Option<&Vec<Json>>)
        ensures
            match r {
                Some(v) => elements(Some(*self)) == Some(v@),
                None => elements(Some(*self)) is None,
            },
    {
        match self {
            Json::Array(items) => Some(items),
            _ => None,
        }
    }

    /// The text, if this is one.
    pub fn as_str(&self) -> (r: Option<&str>)
        ensures
            match r {
                Some(s) => characters(Some(*self)) == Some(s@),
                None => characters(Some(*self)) is None,
            },
    {
        match self {
            Json::Text(s) => Some(s.as_str()),
            _ => None,
        }
    }
}

/// The array under `result`, else the document itself if it is an array.
pub open spec fn result_elements(body: Json) -> Option<Seq<Json>> {
    match elements(member(body, "result"@)) {
        Some(items) => Some(items),
        None => elements(Some(body)),
    }
}

/// The value under a path of two keys.
pub open spec fn nested(body: Json, outer: Seq<char>, inner: Seq<char>) -> Option<Json> {
    match member(body, outer) {
        Some(v) => member(v, inner),
        None => None,
    }
}

/// The text under a key, or the error that says it is missing.
pub open spec fn field_in(value: Json, key: Seq<char>) -> Result<Seq<char>, Failure> {
    match characters(member(value, key)) {
        Some(s) => Ok(s),
        None => Err(Failure::Broker("toss: missing field '"@ + key + "'"@)),
    }
}

/// Return the array under `result` if present, otherwise treat the root as the array.
pub fn result_array(value: &Json) -> (r: Option<&Vec<Json>>)
    ensures
        match r {
            Some(v) => result_elements(*value) == Some(v@),
            None => result_elements(*value) is None,
        },
{
    if let Some(result) = value.get("result") {
        if let Some(items) = result.as_array() {
            return Some(items);
        }
    }
    value.as_array()
}

/// The items of a holdings answer.
pub fn result_items(value: &Json) -> (r: Option<&Vec<Json>>)
    ensures
        match r {
            Some(v) => elements(nested(*value, "result"@, "items"@)) == Some(v@),
            None => elements(nested(*value, "result"@, "items"@)) is None,
        },
{
    match value.get("result") {
        Some(result) => match result.get("items") {
            Some(items) => items.as_array(),
            None => None,
        },
        None => None,
    }
}

/// The text under a key.
pub fn str_field<'a>(value: &'a Json, key: &str) -> (r: Result<&'a str, DomainError>)
    ensures
        match r {
            Ok(s) => field_in(*value, key@) == Ok::<Seq<char>, Failure>(s@),
            Err(e) => field_in(*value, key@) == Err::<Seq<char>, Failure>(e@),
        },
{
    if let Some(v) = value.get(key) {
        if let Some(s) = v.as_str() {
            return Ok(s);
        }
    }
    Err(DomainError::Broker(join3("toss: missing field '", key, "'")))
}

/// What a price answer comes to.
pub open spec fn toss_quoted(ticker: Seq<char>, body: Json) -> Result<Dec, Failure> {
    let no_price = Failure::Broker("toss: no price for "@ + ticker);
    match result_elements(body) {
        None => Err(no_price),
        Some(items) => if items.len() == 0 {
            Err(no_price)
        } else {
            match field_in(items[0], "lastPrice"@) {
                Err(e) => Err(e),
                Ok(raw) => match price_in(raw) {
                    Err(e) => Err(e),
                    Ok(None) => Err(no_price),
                    Ok(Some(p)) => Ok(p),
                },
            }
        },
    }
}

/// What an item of a holdings answer is: nothing if it has no shares.
pub open spec fn item_holding(item: Json) -> Result<Option<HoldingView>, Failure> {
    match field_in(item, "quantity"@) {
        Err(e) => Err(e),
        Ok(quantity) => match shares_in(quantity) {
            Err(e) => Err(e),
            Ok(shares) => if shares == 0 {
                Ok(None)
            } else {
                match field_in(item, "symbol"@) {
                    Err(e) => Err(e),
                    Ok(symbol) => match field_in(item, "averagePurchasePrice"@) {
                        Err(e) => Err(e),
                        Ok(average) => match price_in(average) {
                            Err(e) => Err(e),
                            Ok(avg_price) => Ok(
                                Some(
                                    HoldingView {
                                        ticker: uppercase(trimmed(symbol)),
                                        shares,
                                        avg_price,
                                    },
                                ),
                            ),
                        },
                    },
                }
            },
        },
    }
}

/// The holdings among items, in order; the first error where there is one.
pub open spec fn item_holdings(items: Seq<Json>) -> Result<Seq<HoldingView>, Failure>
    decreases items.len(),
{
    if items.len() == 0 {
        Ok(Seq::empty())
    } else {
        match item_holdings(items.drop_last()) {
            Err(e) => Err(e),
            Ok(before) => match item_holding(items.last()) {
                Err(e) => Err(e),
                Ok(None) => Ok(before),
                Ok(Some(h)) => Ok(before.push(h)),
            },
        }
    }
}

proof fn lemma_items_error(items: Seq<Json>, n: int, e: Failure)
    requires
        0 <= n <= items.len(),
        item_holdings(items.take(n)) == Err::<Seq<HoldingView>, Failure>(e),
    ensures
        item_holdings(items) == Err::<Seq<HoldingView>, Failure>(e),
    decreases items.len() - n,
{
    if n == items.len() {
        assert(items.take(n) =~= items);
    } else {
        assert(items.take(n + 1).drop_last() =~= items.take(n));
        lemma_items_error(items, n + 1, e);
    }
}

/// Configuration for a Toss adapter instance.
#[derive(Debug)]
pub struct TossConfig {
    pub app_key: String,
    pub app_secret: String,
    /// Account sequence, sent as a header.
    pub account_seq: i64,
}

/// Where the Toss interface is served.
pub const TOSS_BASE: &'static str = "https://openapi.tossinvest.com";

/// A request to the Toss server, up to the host and the credentials.
#[derive(Debug)]
pub struct TossRequest {
    pub path: &'static str,
    pub query: Vec<Field>,
}

/// Whether a request is the one for a path and a query.
pub open spec fn is_request(
    request: TossRequest,
    path: Seq<char>,
    query: Seq<(Seq<char>, Seq<char>)>,
) -> bool {
    request.path@ == path && fields_of(request.query@) == query
}

/// The path and query of a price request.
pub open spec fn toss_quote_call(ticker: Seq<char>) -> (Seq<char>, Seq<(Seq<char>, Seq<char>)>) {
    ("/api/v1/prices"@, seq![("symbols"@, ticker)])
}

/// The path and query of a holdings request.
pub open spec fn toss_holdings_call() -> (Seq<char>, Seq<(Seq<char>, Seq<char>)>) {
    ("/api/v1/holdings"@, Seq::empty())
}

/// The path and query of a buying-power request.
pub open spec fn toss_balance_call() -> (Seq<char>, Seq<(Seq<char>, Seq<char>)>) {
    ("/api/v1/buying-power"@, seq![("symbol"@, "AAPL"@)])
}

/// The form of a token request.
pub open spec fn toss_token_fields(key: Seq<char>, secret: Seq<char>) -> Seq<
    (Seq<char>, Seq<char>),
> {
    seq![
        ("grant_type"@, "client_credentials"@),
        ("client_id"@, key),
        ("client_secret"@, secret),
    ]
}

/// The headers of a request.
pub open spec fn toss_headers(token: Seq<char>, account_seq: int) -> Seq<(Seq<char>, Seq<char>)> {
    seq![
        ("authorization"@, "Bearer "@ + token),
        ("x-tossinvest-account"@, signed_digits(account_seq)),
    ]
}

/// A read-only Toss adapter.
#[derive(Debug)]
pub struct TossBroker {
    config: TossConfig,
}

impl TossBroker {
    pub closed spec fn configured(self) -> TossConfig {
        self.config
    }

    pub fn new(config: TossConfig) -> (r: TossBroker)
        ensures
            r.configured() == config,
    {
        TossBroker { config }
    }

    /// The configuration of the account.
    pub fn config(&self) -> (r: &TossConfig)
        ensures
            *r == self.configured(),
    {
        &self.config
    }

    /// The form of a token request, to be posted to `/oauth2/token`.
    pub fn token_form(&self) -> (r: Vec<Field>)
        ensures
            fields_of(r@) == toss_token_fields(
                self.configured().app_key@,
                self.configured().app_secret@,
            ),
            fields_of(r@) == seq![
                ("grant_type"@, "client_credentials"@),
                ("client_id"@, self.configured().app_key@),
                ("client_secret"@, self.configured().app_secret@),
            ],
    {
        let mut form: Vec<Field> = Vec::new();
        push_field(&mut form, "grant_type", "client_credentials");
        push_field(&mut form, "client_id", self.config.app_key.as_str());
        push_field(&mut form, "client_secret", self.config.app_secret.as_str());
        assert(fields_of(form@) =~= seq![
            ("grant_type"@, "client_credentials"@),
            ("client_id"@, self.configured().app_key@),
            ("client_secret"@, self.configured().app_secret@),
        ]);
        form
    }

    /// The headers of a request: the bearer token and the account.
    pub fn authed(&self, token: &str) -> (r: Vec<Field>)
        ensures
            fields_of(r@) == toss_headers(token@, self.configured().account_seq as int),
            fields_of(r@) == seq![
                ("authorization"@, "Bearer "@ + token@),
                ("x-tossinvest-account"@, signed_digits(self.configured().account_seq as int)),
            ],
    {
        let mut headers: Vec<Field> = Vec::new();
        push_field(&mut headers, "authorization", join2("Bearer ", token).as_str());
        push_field(
            &mut headers,
            "x-tossinvest-account",
            signed_text(self.config.account_seq).as_str(),
        );
        assert(fields_of(headers@) =~= seq![
            ("authorization"@, "Bearer "@ + token@),
            ("x-tossinvest-account"@, signed_digits(self.configured().account_seq as int)),
        ]);
        headers
    }

    /// Ask for the price of a ticker.
    pub fn quote_request(&self, ticker: &Ticker) -> (r: TossRequest)
        ensures
            is_request(r, "/api/v1/prices"@, seq![("symbols"@, ticker@)]),
            is_request(r, toss_quote_call(ticker@).0, toss_quote_call(ticker@).1),
    {
        let mut query: Vec<Field> = Vec::new();
        push_field(&mut query, "symbols", ticker.as_str());
        assert(fields_of(query@) =~= seq![("symbols"@, ticker@)]);
        TossRequest { path: "/api/v1/prices", query }
    }

    /// Ask for the holdings of the account.
    pub fn holdings_request(&self) -> (r: TossRequest)
        ensures
            is_request(r, "/api/v1/holdings"@, Seq::empty()),
            is_request(r, toss_holdings_call().0, toss_holdings_call().1),
    {
        let query: Vec<Field> = Vec::new();
        assert(fields_of(query@) =~= Seq::<(Seq<char>, Seq<char>)>::empty());
        TossRequest { path: "/api/v1/holdings", query }
    }

    /// Ask for the cash of the account. Buying power is told per symbol, so a liquid one stands
    /// for all.
    pub fn balance_request(&self) -> (r: TossRequest)
        ensures
            is_request(r, "/api/v1/buying-power"@, seq![("symbol"@, "AAPL"@)]),
            is_request(r, toss_balance_call().0, toss_balance_call().1),
    {
        let mut query: Vec<Field> = Vec::new();
        push_field(&mut query, "symbol", "AAPL");
        assert(fields_of(query@) =~= seq![("symbol"@, "AAPL"@)]);
        TossRequest { path: "/api/v1/buying-power", query }
    }

    /// Read the answer to a price request.
    pub fn quote(&self, ticker: &Ticker, as_of: Date, body: &Json) -> (r: Result<
        Quote,
        DomainError,
    >)
        ensures
            is_quote(r, ticker@, as_of@, toss_quoted(ticker@, *body)),
    {
        let items = match result_array(body) {
            Some(items) => items,
            None => {
                return Err(
                    DomainError::Broker(join2("toss: no price for ", ticker.as_str())),
                );
            },
        };
        if items.len() == 0 {
            return Err(DomainError::Broker(join2("toss: no price for ", ticker.as_str())));
        }
        let raw = match str_field(&items[0], "lastPrice") {
            Ok(raw) => raw,
            Err(e) => return Err(e),
        };
        match parse_price_opt(raw) {
            Ok(Some(price)) => Ok(Quote { ticker: ticker.clone(), price, as_of }),
            Ok(None) => Err(DomainError::Broker(join2("toss: no price for ", ticker.as_str()))),
            Err(e) => Err(e),
        }
    }

    /// Read one item of a holdings answer.
    fn read_item(item: &Json) -> (r: Result<Option<Holding>, DomainError>)
        ensures
            crate::kis::holding_result(r) == item_holding(*item),
    {
        let quantity = match str_field(item, "quantity") {
            Ok(q) => q,
            Err(e) => return Err(e),
        };
        let shares = match parse_shares(quantity) {
            Ok(s) => s,
            Err(e) => return Err(e),
        };
        if shares.is_zero() {
            return Ok(None);
        }
        let symbol = match str_field(item, "symbol") {
            Ok(s) => s,
            Err(e) => return Err(e),
        };
        let average = match str_field(item, "averagePurchasePrice") {
            Ok(a) => a,
            Err(e) => return Err(e),
        };
        match parse_price_opt(average) {
            Ok(avg_price) => Ok(
                Some(Holding { ticker: Ticker::new(symbol), shares, avg_price }),
            ),
            Err(e) => Err(e),
        }
    }

    /// Read the answer to a holdings request. Items without shares are left out.
    pub fn holdings(&self, body: &Json) -> (r: Result<Vec<Holding>, DomainError>)
        ensures
            holdings_result(r) == match elements(nested(*body, "result"@, "items"@)) {
                None => Err(Failure::Broker("toss: holdings shape unexpected"@)),
                Some(items) => item_holdings(items),
            },
    {
        let items = match result_items(body) {
            Some(items) => items,
            None => {
                return Err(DomainError::Broker("toss: holdings shape unexpected".to_owned()));
            },
        };
        let ghost all = items@;
        let mut holdings: Vec<Holding> = Vec::new();
        let mut i: usize = 0;
        assert(all.take(0) =~= Seq::<Json>::empty());
        assert(holdings_of(holdings@) =~= Seq::<HoldingView>::empty());
        while i < items.len()
            invariant
                i <= items.len(),
                all == items@,
                elements(nested(*body, "result"@, "items"@)) == Some(all),
                item_holdings(all.take(i as int)) == Ok::<Seq<HoldingView>, Failure>(
                    holdings_of(holdings@),
                ),
            decreases items.len() - i,
        {
            proof {
                assert(all.take(i + 1).drop_last() =~= all.take(i as int));
                assert(all.take(i + 1).last() == items[i as int]);
            }
            match TossBroker::read_item(&items[i]) {
                Ok(Some(h)) => {
                    let ghost before = holdings_of(holdings@);
                    let ghost new = h@;
                    holdings.push(h);
                    assert(holdings_of(holdings@) =~= before.push(new));
                },
                Ok(None) => {},
                Err(e) => {
                    proof {
                        lemma_items_error(all, i + 1, e@);
                    }
                    return Err(e);
                },
            }
            i += 1;
        }
        assert(all.take(i as int) =~= all);
        Ok(holdings)
    }

    /// Read the cash off a buying-power answer.
    pub fn balance(&self, body: &Json) -> (r: Result<Money, DomainError>)
        ensures
            r matches Ok(m) ==> (nested(*body, "result"@, "cash"@) matches Some(Json::Text(cash))
                && decimal_parsed(trimmed(cash@)) == Ok::<Dec, Seq<char>>(m@)),
            money_result(r) == match characters(nested(*body, "result"@, "cash"@)) {
                None => Err(Failure::Broker("toss: missing result.cash"@)),
                Some(cash) => number_in(cash),
            },
    {
        if let Some(result) = body.get("result") {
            if let Some(cash) = result.get("cash") {
                if let Some(text) = cash.as_str() {
                    return match parse_decimal(text) {
                        Ok(d) => Ok(Money::new(d)),
                        Err(e) => Err(e),
                    };
                }
            }
        }
        Err(DomainError::Broker("toss: missing result.cash".to_owned()))
    }

    /// There is no execution history.
    pub fn fills_since(&self, _ticker: &Ticker, _since: Date) -> (r: Result<
        Vec<Fill>,
        DomainError,
    >)
        ensures
            r matches Err(e) && e@ == Failure::Unsupported(
                "Toss execution history is not implemented in M1"@,
            ),
    {
        Err(
            DomainError::Unsupported(
                "Toss execution history is not implemented in M1".to_owned(),
            ),
        )
    }
}

impl BrokerInfo for TossBroker {
    open spec fn broker(&self) -> BrokerId {
        BrokerId::Toss
    }

    open spec fn abilities(&self) -> Capabilities {
        Capabilities {
            realtime_quotes: false,
            paper_account: false,
            order_placement: false,
            overseas: true,
        }
    }

    fn id(&self) -> (r: BrokerId) {
        BrokerId::Toss
    }

    fn capabilities(&self) -> (r: Capabilities) {
        Capabilities {
            realtime_quotes: false,
            paper_account: false,
            order_placement: false,
            overseas: true,
        }
    }
}

/// Looking a key up gives the value of the first entry with that key, and nothing exactly
/// where no entry has it. Only objects have members.
pub proof fn law_members_are_found_by_their_key(entries: Vec<(String, Json)>, key: Seq<char>)
    ensures
        member(Json::Object(entries), key) is None <==> forall|i: int|
            0 <= i < entries@.len() ==> (#[trigger] entries@[i]).0@ != key,
        forall|i: int|
            0 <= i < entries@.len() && (#[trigger] entries@[i]).0@ == key && (forall|j: int|
                0 <= j < i ==> (#[trigger] entries@[j]).0@ != key) ==> member(
                Json::Object(entries),
                key,
            ) == Some(entries@[i].1),
        member(Json::Other, key) is None,
        forall|s: String| #[trigger] member(Json::Text(s), key) is None,
        forall|items: Vec<Json>| #[trigger] member(Json::Array(items), key) is None,
{
    let keys = keys_of(entries@);
    lemma_first_at(keys, key);
    assert forall|i: int|
        0 <= i < entries@.len() && (#[trigger] entries@[i]).0@ == key && (forall|j: int|
            0 <= j < i ==> (#[trigger] entries@[j]).0@ != key) implies member(
        Json::Object(entries),
        key,
    ) == Some(entries@[i].1) by {
        assert forall|j: int| 0 <= j < i implies #[trigger] keys[j] != key by {
            assert(entries@[j].0@ != key);
        }
        assert(keys[i] == key);
        lemma_is_first(keys, key, i);
    }
    if first_at(keys, key) is None {
        assert forall|i: int| 0 <= i < entries@.len() implies (#[trigger] entries@[i]).0@
            != key by {
            assert(keys[i] != key);
        }
    } else {
        let i = first_at(keys, key)->0;
        assert(entries@[i].0@ == key);
    }
}

/// The elements are those under `result`, or else those of the document; one that has
/// neither has none.
pub proof fn law_the_result_comes_before_the_root(body: Json)
    ensures
        member(body, "result"@) matches Some(Json::Array(items)) ==> result_elements(body) == Some(
            items@,
        ),
        body matches Json::Array(items) ==> result_elements(body) == Some(items@),
        result_elements(body) is Some ==> body is Array || (body is Object && member(
            body,
            "result"@,
        ) is Some && member(body, "result"@)->0 is Array),
{
}

/// A price answer is a quote exactly where its first element holds a text `lastPrice` with a
/// price in it, and is then that price.
pub proof fn law_a_toss_quote_is_the_last_price(ticker: Seq<char>, body: Json)
    ensures
        toss_quoted(ticker, body) is Ok ==> result_elements(body) is Some && result_elements(
            body,
        )->0.len() > 0 && (member(result_elements(body)->0[0], "lastPrice"@) matches Some(
            Json::Text(raw),
        ) && price_in(raw@) == Ok::<Option<Dec>, Failure>(Some(toss_quoted(ticker, body)->Ok_0))),
        result_elements(body) is Some && result_elements(body)->0.len() > 0 ==> (member(
            result_elements(body)->0[0],
            "lastPrice"@,
        ) matches Some(Json::Text(raw)) ==> (price_in(raw@) matches Ok(Some(p)) ==> toss_quoted(
            ticker,
            body,
        ) == Ok::<Dec, Failure>(p))),
{
}

/// An item is a holding exactly where it has shares: of its symbol, at its average. An item
/// without shares is none, and one that lacks a field is an error.
pub proof fn law_an_item_is_the_holding_it_reports(item: Json)
    ensures
        item_holding(item) == Ok::<Option<HoldingView>, Failure>(None) <==> (member(
            item,
            "quantity"@,
        ) matches Some(Json::Text(q)) && shares_in(q@) == Ok::<u32, Failure>(0)),
        item_holding(item) matches Ok(Some(h)) ==> h.shares > 0 && (member(item, "quantity"@)
            matches Some(Json::Text(q)) && shares_in(q@) == Ok::<u32, Failure>(h.shares)) && (
        member(item, "symbol"@) matches Some(Json::Text(s)) && h.ticker == uppercase(trimmed(s@)))
            && (member(item, "averagePurchasePrice"@) matches Some(Json::Text(a)) && price_in(a@)
            == Ok::<Option<Dec>, Failure>(h.avg_price)),
        (member(item, "quantity"@) matches Some(Json::Text(q)) ==> (shares_in(q@) is Ok && shares_in(
            q@,
        )->Ok_0 > 0 ==> (member(item, "symbol"@) matches Some(Json::Text(s)) ==> (member(
            item,
            "averagePurchasePrice"@,
        ) matches Some(Json::Text(a)) ==> (price_in(a@) is Ok ==> item_holding(item) is Ok
            && item_holding(item)->Ok_0 is Some))))),
{
}

/// Items are read one after another: the holdings of two lists in a row are those of the first
/// and then those of the second, and the first error ends the reading.
pub proof fn law_items_are_read_in_order(a: Seq<Json>, b: Seq<Json>)
    ensures
        item_holdings(a) is Ok && item_holdings(b) is Ok ==> item_holdings(a + b) == Ok::<
            Seq<HoldingView>,
            Failure,
        >(item_holdings(a)->Ok_0 + item_holdings(b)->Ok_0),
        item_holdings(a) is Err ==> item_holdings(a + b) == item_holdings(a),
        item_holdings(a) is Ok && item_holdings(b) is Err ==> item_holdings(a + b)
            == item_holdings(b),
    decreases b.len(),
{
    if b.len() == 0 {
        assert(a + b =~= a);
        if item_holdings(a) is Ok {
            assert(item_holdings(a)->Ok_0 + item_holdings(b)->Ok_0 =~= item_holdings(a)->Ok_0);
        }
    } else {
        law_items_are_read_in_order(a, b.drop_last());
        assert((a + b).drop_last() =~= a + b.drop_last());
        assert((a + b).last() == b.last());
        if item_holdings(a) is Ok && item_holdings(b) is Ok {
            assert(item_holdings(a + b)->Ok_0 =~= item_holdings(a)->Ok_0 + item_holdings(b)->Ok_0);
        }
    }
}

/// A single item gives its own holding, or nothing, or its error.
pub proof fn law_one_item_gives_its_holding(item: Json)
    ensures
        item_holding(item) is Err ==> item_holdings(seq![item]) is Err && item_holdings(
            seq![item],
        )->Err_0 == item_holding(item)->Err_0,
        item_holding(item) == Ok::<Option<HoldingView>, Failure>(None) ==> item_holdings(seq![item])
            == Ok::<Seq<HoldingView>, Failure>(Seq::empty()),
        item_holding(item) matches Ok(Some(h)) ==> item_holdings(seq![item]) == Ok::<
            Seq<HoldingView>,
            Failure,
        >(seq![h]),
{
    let one = seq![item];
    assert(one.drop_last() =~= Seq::<Json>::empty());
    assert(item_holdings(one.drop_last()) == Ok::<Seq<HoldingView>, Failure>(Seq::empty()));
    if item_holding(item) is Ok && item_holding(item)->Ok_0 is Some {
        let h = item_holding(item)->Ok_0->0;
        assert(Seq::<HoldingView>::empty().push(h) =~= seq![h]);
    }
}

/// The adapter only reads: it places no orders and has no paper account.
pub proof fn law_toss_only_reads(broker: TossBroker)
    ensures
        broker.broker() == BrokerId::Toss,
        !broker.abilities().order_placement,
        !broker.abilities().paper_account,
        !broker.abilities().realtime_quotes,
        broker.abilities().overseas,
{
}

/// A Toss token is asked for with the client's own key and secret, and a request carries the
/// token and the number of the account.
pub proof fn law_toss_requests_carry_the_credentials(
    key: Seq<char>,
    secret: Seq<char>,
    token: Seq<char>,
    account_seq: int,
)
    ensures
        toss_token_fields(key, secret).len() == 3,
        toss_token_fields(key, secret)[0] == ("grant_type"@, "client_credentials"@),
        toss_token_fields(key, secret)[1] == ("client_id"@, key),
        toss_token_fields(key, secret)[2] == ("client_secret"@, secret),
        toss_headers(token, account_seq).len() == 2,
        toss_headers(token, account_seq)[0] == ("authorization"@, "Bearer "@ + token),
        toss_headers(token, account_seq)[1] == (
            "x-tossinvest-account"@,
            signed_digits(account_seq),
        ),
{
}

/// Prices are asked for by ticker, holdings for the whole account, and cash by the buying power
/// of a liquid symbol; all at the one server.
pub proof fn law_toss_requests_go_to_their_paths(ticker: Seq<char>)
    ensures
        TOSS_BASE@ == "https://openapi.tossinvest.com"@,
        toss_quote_call(ticker).0 == "/api/v1/prices"@,
        toss_quote_call(ticker).1.len() == 1,
        toss_quote_call(ticker).1[0] == ("symbols"@, ticker),
        toss_holdings_call().0 == "/api/v1/holdings"@,
        toss_holdings_call().1.len() == 0,
        toss_balance_call().0 == "/api/v1/buying-power"@,
        toss_balance_call().1.len() == 1,
        toss_balance_call().1[0] == ("symbol"@, "AAPL"@),
{
}

/// A value two keys deep is the member of a member; only arrays have elements, and only texts
/// have characters.
pub proof fn law_documents_are_read_by_shape(body: Json, outer: Seq<char>, inner: Seq<char>)
    ensures
        member(body, outer) is None ==> nested(body, outer, inner) is None,
        member(body, outer) matches Some(v) ==> nested(body, outer, inner) == member(v, inner),
        body matches Json::Array(items) ==> elements(Some(body)) == Some(items@),
        body !is Array ==> elements(Some(body)) is None,
        body matches Json::Text(s) ==> characters(Some(body)) == Some(s@),
        body !is Text ==> characters(Some(body)) is None,
        elements(None) is None && characters(None) is None,
        member(body, outer) matches Some(Json::Text(s)) ==> field_in(body, outer) == Ok::<
            Seq<char>,
            Failure,
        >(s@),
        field_in(body, outer) is Ok ==> member(body, outer) is Some && member(body, outer)->0
            is Text,
{
}

} // verus!

//! Market identifiers and observations.

use crate::date::Date;
use crate::error::{DomainError, Failure};
use crate::money::Price;
use crate::text::{
    all_ascii, ascii_lower, ascii_lower_all, ascii_upper, ascii_upper_all, is_white, join3,
    law_trimming_cuts_whitespace_alone, same, to_upper, trim, trimmed, uppercase,
};
use vstd::prelude::*;
use vstd::std_specs::cmp::PartialEqSpecImpl;

verus! {

/// A tradable symbol, normalized to upper case.
#[derive(Debug)]
pub struct Ticker(String);

impl View for Ticker {
    type V = Seq<char>;

    closed spec fn view(&self) -> Seq<char> {
        self.0@
    }
}

impl Ticker {
    /// The symbol in upper case, without surrounding whitespace.
    pub fn new(symbol: &str) -> (r: Ticker)
        ensures
            r@ == uppercase(trimmed(symbol@)),
            all_ascii(symbol@) ==> r@ == ascii_upper_all(trimmed(symbol@)),
    {
        proof {
            let (from, to) = law_trimming_cuts_whitespace_alone(symbol@);
            assert forall|i: int| all_ascii(symbol@) && 0 <= i < trimmed(symbol@).len() implies (
            #[trigger] trimmed(symbol@)[i]) as u32 <= 127 by {
                assert(trimmed(symbol@)[i] == symbol@[from + i]);
            }
        }
        Ticker(to_upper(trim(symbol)))
    }

    pub fn as_str(&self) -> (r: &str)
        ensures
            r@ == self@,
    {
        self.0.as_str()
    }
}

/// Symbols that differ only in surrounding whitespace make the same ticker. In ASCII a ticker
/// made from a ticker is the same ticker, and so are those of symbols that differ only in case.
pub proof fn law_tickers_are_normal(symbol: Seq<char>, other: Seq<char>)
    ensures
        trimmed(symbol) == trimmed(other) ==> uppercase(trimmed(symbol)) == uppercase(
            trimmed(other),
        ),
        all_ascii(symbol) ==> all_ascii(ascii_upper_all(trimmed(symbol))),
        all_ascii(symbol) ==> ascii_upper_all(trimmed(ascii_upper_all(trimmed(symbol))))
            == ascii_upper_all(trimmed(symbol)),
        ascii_lower_all(trimmed(symbol)) == ascii_lower_all(trimmed(other)) ==> ascii_upper_all(
            trimmed(symbol),
        ) == ascii_upper_all(trimmed(other)),
{
    let (from, to) = law_trimming_cuts_whitespace_alone(symbol);
    let s = trimmed(symbol);
    let r = ascii_upper_all(s);
    assert forall|i: int| 0 <= i < r.len() implies (all_ascii(symbol) ==> (
    #[trigger] r[i]) as u32 <= 127) && ascii_upper(r[i]) == r[i] && (is_white(r[i]) ==> is_white(
        s[i],
    )) by {
        assert(s[i] == symbol[from + i]);
    }
    assert(trimmed(r) == r);
    assert(ascii_upper_all(r) =~= r);
    let t = trimmed(other);
    if ascii_lower_all(s) == ascii_lower_all(t) {
        assert(s.len() == ascii_lower_all(s).len());
        assert(t.len() == ascii_lower_all(t).len());
        assert forall|i: int| 0 <= i < s.len() implies ascii_upper(#[trigger] s[i]) == ascii_upper(
            t[i],
        ) by {
            assert(ascii_lower_all(s)[i] == ascii_lower(s[i]));
            assert(ascii_lower_all(t)[i] == ascii_lower(t[i]));
        }
        assert(ascii_upper_all(s) =~= ascii_upper_all(t));
    }
}

impl Clone for Ticker {
    fn clone(&self) -> (r: Ticker)
        ensures
            r@ == self@,
    {
        Ticker(self.0.clone())
    }
}

impl PartialEqSpecImpl for Ticker {
    open spec fn obeys_eq_spec() -> bool {
        true
    }

    open spec fn eq_spec(&self, other: &Ticker) -> bool {
        self@ == other@
    }
}

impl PartialEq for Ticker {
    fn eq(&self, other: &Ticker) -> (r: bool) {
        same(self.0.as_str(), other.0.as_str())
    }
}

impl Eq for Ticker {

}

/// Which configured account a position trades under: the isolation namespace for its
/// ledger, its order-journal keys, and its stored credentials. Paper and real accounts at
/// one broker are different accounts with different money. The broker (adapter) is
/// orthogonal: one account can trade through several adapters.
#[derive(Debug)]
pub struct AccountId(String);

impl View for AccountId {
    type V = Seq<char>;

    closed spec fn view(&self) -> Seq<char> {
        self.0@
    }
}

/// The key of one credential field of an account.
pub open spec fn credential_key(account: Seq<char>, field: Seq<char>) -> Seq<char> {
    account + "_"@ + field
}

impl AccountId {
    /// The name without surrounding whitespace.
    pub fn new(name: &str) -> (r: AccountId)
        ensures
            r@ == trimmed(name@),
    {
        AccountId(trim(name).to_owned())
    }

    pub fn as_str(&self) -> (r: &str)
        ensures
            r@ == self@,
    {
        self.0.as_str()
    }

    /// The secret-store key for one of an account's credential fields. An underscore, never
    /// a dot: dots nest in TOML, which would break the flat secret store.
    pub fn secret_key(account: &str, field: &str) -> (r: String)
        ensures
            r@ == credential_key(account@, field@),
    {
        join3(account, "_", field)
    }
}

/// No two accounts share a credential key for the same field.
pub proof fn law_credentials_are_per_account(a: Seq<char>, b: Seq<char>, field: Seq<char>)
    requires
        a != b,
    ensures
        credential_key(a, field) != credential_key(b, field),
{
    let rest = "_"@ + field;
    assert(credential_key(a, field) =~= a + rest);
    assert(credential_key(b, field) =~= b + rest);
    if credential_key(a, field) == credential_key(b, field) {
        lemma_prefix(a, b, rest);
    }
}

/// Two texts that end alike and are the same begin alike.
pub proof fn lemma_prefix(a: Seq<char>, b: Seq<char>, rest: Seq<char>)
    requires
        a + rest == b + rest,
    ensures
        a == b,
{
    assert((a + rest).len() == a.len() + rest.len());
    assert((b + rest).len() == b.len() + rest.len());
    assert forall|i: int| 0 <= i < a.len() implies a[i] == b[i] by {
        assert((a + rest)[i] == a[i]);
        assert((b + rest)[i] == b[i]);
    }
    assert(a =~= b);
}

impl Clone for AccountId {
    fn clone(&self) -> (r: AccountId)
        ensures
            r@ == self@,
    {
        AccountId(self.0.clone())
    }
}

impl Default for AccountId {
    fn default() -> (r: AccountId)
        ensures
            r@ == Seq::<char>::empty(),
    {
        AccountId(String::new())
    }
}

impl PartialEqSpecImpl for AccountId {
    open spec fn obeys_eq_spec() -> bool {
        true
    }

    open spec fn eq_spec(&self, other: &AccountId) -> bool {
        self@ == other@
    }
}

impl PartialEq for AccountId {
    fn eq(&self, other: &AccountId) -> (r: bool) {
        same(self.0.as_str(), other.0.as_str())
    }
}

impl Eq for AccountId {

}

/// Which broker an order or position belongs to.
#[derive(Clone, Copy, Debug, PartialEq, Eq, Structural)]
pub enum BrokerId {
    Kis,
    Toss,
    Paper,
}

/// The name of a broker.
pub open spec fn broker_name(broker: BrokerId) -> Seq<char> {
    match broker {
        BrokerId::Kis => "kis"@,
        BrokerId::Toss => "toss"@,
        BrokerId::Paper => "paper"@,
    }
}

/// The broker that a name stands for. The domestic KIS adapter is the same broker as the
/// overseas one.
pub open spec fn broker_named(name: Seq<char>) -> Option<BrokerId> {
    if name == "kis"@ || name == "kis-domestic"@ {
        Some(BrokerId::Kis)
    } else if name == "toss"@ {
        Some(BrokerId::Toss)
    } else if name == "paper"@ {
        Some(BrokerId::Paper)
    } else {
        None
    }
}

impl BrokerId {
    /// The name of the broker.
    pub fn as_str(self) -> (r: &'static str)
        ensures
            r@ == broker_name(self),
    {
        match self {
            BrokerId::Kis => "kis",
            BrokerId::Toss => "toss",
            BrokerId::Paper => "paper",
        }
    }

    /// The broker that a name stands for.
    pub fn from_str(s: &str) -> (r: Result<BrokerId, DomainError>)
        ensures
            match r {
                Ok(b) => broker_named(s@) == Some(b),
                Err(e) => broker_named(s@) is None && e@ == Failure::Config(
                    "unknown broker '"@ + s@ + "' (use kis|kis-domestic|toss|paper)"@,
                ),
            },
    {
        if same(s, "kis") || same(s, "kis-domestic") {
            Ok(BrokerId::Kis)
        } else if same(s, "toss") {
            Ok(BrokerId::Toss)
        } else if same(s, "paper") {
            Ok(BrokerId::Paper)
        } else {
            Err(
                DomainError::Config(
                    join3("unknown broker '", s, "' (use kis|kis-domestic|toss|paper)"),
                ),
            )
        }
    }
}

/// A broker's own name stands for it.
pub proof fn law_broker_names_round_trip(broker: BrokerId)
    ensures
        broker_named(broker_name(broker)) == Some(broker),
{
    reveal_strlit("kis");
    reveal_strlit("kis-domestic");
    reveal_strlit("toss");
    reveal_strlit("paper");
    assert("toss"@[0] != "kis"@[0] && "toss"@[0] != "kis-domestic"@[0]);
    assert("paper"@[0] != "kis"@[0] && "paper"@[0] != "kis-domestic"@[0] && "paper"@[0]
        != "toss"@[0]);
}

/// An opaque, broker-assigned order identifier.
#[derive(Debug)]
pub struct OrderId(String);

impl View for OrderId {
    type V = Seq<char>;

    closed spec fn view(&self) -> Seq<char> {
        self.0@
    }
}

impl OrderId {
    pub fn new(id: &str) -> (r: OrderId)
        ensures
            r@ == id@,
    {
        OrderId(id.to_owned())
    }

    pub fn as_str(&self) -> (r: &str)
        ensures
            r@ == self@,
    {
        self.0.as_str()
    }
}

impl Clone for OrderId {
    fn clone(&self) -> (r: OrderId)
        ensures
            r@ == self@,
    {
        OrderId(self.0.clone())
    }
}

impl PartialEqSpecImpl for OrderId {
    open spec fn obeys_eq_spec() -> bool {
        true
    }

    open spec fn eq_spec(&self, other: &OrderId) -> bool {
        self@ == other@
    }
}

impl PartialEq for OrderId {
    fn eq(&self, other: &OrderId) -> (r: bool) {
        same(self.0.as_str(), other.0.as_str())
    }
}

impl Eq for OrderId {

}

/// Buy or sell.
#[derive(Clone, Copy, Debug, PartialEq, Eq, Structural)]
pub enum Side {
    Buy,
    Sell,
}

/// A latest-price observation, used to size orders before the close.
#[derive(Debug)]
pub struct Quote {
    pub ticker: Ticker,
    pub price: Price,
    pub as_of: Date,
}

/// One daily bar; the `close` settles limit-on-close orders.
#[derive(Clone, Copy, Debug)]
pub struct Bar {
    pub date: Date,
    pub open: Price,
    pub high: Price,
    pub low: Price,
    pub close: Price,
}

/// What a strategy observes for a ticker on a given trading day.
#[derive(Debug)]
pub struct MarketSnapshot {
    pub ticker: Ticker,
    /// Reference price for sizing: a latest quote, or a bar's close in a backtest.
    pub price: Price,
    pub as_of: Date,
}

/// The names are the literal ones, `kis-domestic` is KIS too, and no other name is a broker's.
pub proof fn law_brokers_go_by_their_names(name: Seq<char>)
    ensures
        broker_name(BrokerId::Kis) == "kis"@,
        broker_name(BrokerId::Toss) == "toss"@,
        broker_name(BrokerId::Paper) == "paper"@,
        broker_named(name) == Some(BrokerId::Kis) <==> name == "kis"@ || name == "kis-domestic"@,
        broker_named(name) == Some(BrokerId::Toss) <==> name == "toss"@,
        broker_named(name) == Some(BrokerId::Paper) <==> name == "paper"@,
{
    reveal_strlit("kis");
    reveal_strlit("kis-domestic");
    reveal_strlit("toss");
    reveal_strlit("paper");
    assert("kis"@[0] == 'k');
    assert("kis-domestic"@[0] == 'k');
    assert("toss"@[0] == 't');
    assert("paper"@[0] == 'p');
}

/// A credential key is the account, an underscore and the field.
pub proof fn law_credential_keys_join_with_an_underscore(account: Seq<char>, field: Seq<char>)
    ensures
        credential_key(account, field) == account + seq!['_'] + field,
{
    reveal_strlit("_");
    assert("_"@ =~= seq!['_']);
}

} // verus!

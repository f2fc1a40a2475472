//! Broker-neutral order intents: what a strategy wants done, before any broker turns it into
//! a wire-format order.

use crate::date::{date_text, is_date, Civil, Date};
use crate::decimal::Dec;
use crate::market::{lemma_prefix, AccountId, Side, Ticker};
use crate::money::{Price, Shares};
use crate::text::{digit, fixed_digits, join5};
use vstd::prelude::*;
use vstd::string::*;

verus! {

/// Execution style of an order.
#[derive(Clone, Copy, Debug, PartialEq, Eq, Structural)]
pub enum OrderKind {
    /// Limit-on-close: settles only at the official close, and only if the close is at or
    /// better than `limit`.
    LimitOnClose,
    /// A plain day limit order.
    Limit,
    /// A market order, sized in shares.
    Market,
}

/// A single action a strategy wants taken today, expressed independently of any broker.
#[derive(Clone, Copy, Debug)]
pub struct OrderIntent {
    pub side: Side,
    pub kind: OrderKind,
    pub shares: Shares,
    /// Limit price; `None` only for [`OrderKind::Market`].
    pub limit: Option<Price>,
    /// Diagnostic label.
    pub tag: &'static str,
}

/// The model of an [`OrderIntent`].
pub struct IntentView {
    pub side: Side,
    pub kind: OrderKind,
    pub shares: u32,
    pub limit: Option<Dec>,
    pub tag: Seq<char>,
}

/// The number of an optional price.
pub open spec fn price_of(p: Option<Price>) -> Option<Dec> {
    match p {
        Some(p) => Some(p@),
        None => None,
    }
}

impl View for OrderIntent {
    type V = IntentView;

    open spec fn view(&self) -> IntentView {
        IntentView {
            side: self.side,
            kind: self.kind,
            shares: self.shares@,
            limit: price_of(self.limit),
            tag: self.tag@,
        }
    }
}

/// The idempotency key of an order: its account, ticker, trading day and tag.
pub open spec fn order_key(
    account: Seq<char>,
    ticker: Seq<char>,
    date: Civil,
    tag: Seq<char>,
) -> Seq<char> {
    account + ":"@ + ticker + ":"@ + date_text(date) + ":"@ + tag
}

impl OrderIntent {
    pub fn loc(side: Side, shares: Shares, limit: Price, tag: &'static str) -> (r: OrderIntent)
        ensures
            r@ == (IntentView {
                side,
                kind: OrderKind::LimitOnClose,
                shares: shares@,
                limit: Some(limit@),
                tag: tag@,
            }),
    {
        OrderIntent { side, kind: OrderKind::LimitOnClose, shares, limit: Some(limit), tag }
    }

    pub fn limit(side: Side, shares: Shares, limit: Price, tag: &'static str) -> (r: OrderIntent)
        ensures
            r@ == (IntentView {
                side,
                kind: OrderKind::Limit,
                shares: shares@,
                limit: Some(limit@),
                tag: tag@,
            }),
    {
        OrderIntent { side, kind: OrderKind::Limit, shares, limit: Some(limit), tag }
    }

    pub fn market(side: Side, shares: Shares, tag: &'static str) -> (r: OrderIntent)
        ensures
            r@ == (IntentView {
                side,
                kind: OrderKind::Market,
                shares: shares@,
                limit: None,
                tag: tag@,
            }),
    {
        OrderIntent { side, kind: OrderKind::Market, shares, limit: None, tag }
    }

    /// True if this intent is a no-op (zero shares) and can be dropped before sending.
    pub fn is_noop(&self) -> (r: bool)
        ensures
            r == (self@.shares == 0),
    {
        self.shares.is_zero()
    }

    /// A stable idempotency key for this intent on a given trading day. It relies on the
    /// strategy emitting at most one intent per tag per day. Keyed by account, not broker:
    /// a paper order must not suppress the real order for the same leg.
    pub fn client_key(&self, account: &AccountId, ticker: &Ticker, date: Date) -> (r: String)
        ensures
            r@ == order_key(account@, ticker@, date@, self@.tag),
    {
        let day = date.to_text();
        let mut key = join5(account.as_str(), ":", ticker.as_str(), ":", day.as_str());
        key.append(":");
        key.append(self.tag);
        key
    }
}

/// Orders of different accounts on the same ticker, day and leg have different keys.
pub proof fn law_keys_are_per_account(
    a: Seq<char>,
    b: Seq<char>,
    ticker: Seq<char>,
    date: Civil,
    tag: Seq<char>,
)
    requires
        a != b,
    ensures
        order_key(a, ticker, date, tag) != order_key(b, ticker, date, tag),
{
    let rest = ":"@ + ticker + ":"@ + date_text(date) + ":"@ + tag;
    assert(order_key(a, ticker, date, tag) =~= a + rest);
    assert(order_key(b, ticker, date, tag) =~= b + rest);
    if order_key(a, ticker, date, tag) == order_key(b, ticker, date, tag) {
        lemma_prefix(a, b, rest);
    }
}

/// On one account and ticker, orders of different days or legs have different keys.
pub proof fn law_keys_are_per_day_and_leg(
    account: Seq<char>,
    ticker: Seq<char>,
    a: Civil,
    a_tag: Seq<char>,
    b: Civil,
    b_tag: Seq<char>,
)
    requires
        is_date(a),
        is_date(b),
        a != b || a_tag != b_tag,
    ensures
        order_key(account, ticker, a, a_tag) != order_key(account, ticker, b, b_tag),
{
    let front = account + ":"@ + ticker + ":"@;
    let x = date_text(a);
    let y = date_text(b);
    let s = order_key(account, ticker, a, a_tag);
    let t = order_key(account, ticker, b, b_tag);
    lemma_date_text(a);
    lemma_date_text(b);
    if s == t {
        let n = front.len() as int;
        let k = sign_length(a);
        reveal_strlit(":");
        assert(s =~= front + x + ":"@ + a_tag);
        assert(t =~= front + y + ":"@ + b_tag);
        assert(s[n] == x[0]);
        assert(t[n] == y[0]);
        assert(k == sign_length(b));
        assert forall|i: int| 0 <= i < 10 + k implies x[i] == y[i] by {
            assert(s[n + i] == x[i]);
            assert(t[n + i] == y[i]);
        }
        assert(x =~= y);
        assert(a_tag =~= s.subrange(n + 11 + k, s.len() as int));
        assert(b_tag =~= t.subrange(n + 11 + k, t.len() as int));
        lemma_four_digits(years_from_zero(a), years_from_zero(b));
        lemma_two_digits(a.month as nat, b.month as nat);
        lemma_two_digits(a.day as nat, b.day as nat);
    }
}

/// The number of characters in front of the year in writing.
spec fn sign_length(c: Civil) -> int {
    if c.year < 0 {
        1
    } else {
        0
    }
}

/// The year without its sign.
spec fn years_from_zero(c: Civil) -> nat {
    if c.year < 0 {
        (-c.year) as nat
    } else {
        c.year as nat
    }
}

proof fn lemma_fixed_length(n: nat, width: nat)
    ensures
        fixed_digits(n, width).len() == width,
    decreases width,
{
    if width > 0 {
        lemma_fixed_length(n / 10, (width - 1) as nat);
    }
}

proof fn lemma_date_text(c: Civil)
    requires
        is_date(c),
    ensures
        date_text(c).len() == 10 + sign_length(c),
        date_text(c)[0] == '-' <==> c.year < 0,
        date_text(c).subrange(sign_length(c), 4 + sign_length(c)) == fixed_digits(
            years_from_zero(c),
            4,
        ),
        date_text(c).subrange(5 + sign_length(c), 7 + sign_length(c)) == fixed_digits(
            c.month as nat,
            2,
        ),
        date_text(c).subrange(8 + sign_length(c), 10 + sign_length(c)) == fixed_digits(
            c.day as nat,
            2,
        ),
{
    let k = sign_length(c);
    let year = years_from_zero(c);
    lemma_fixed_length(year, 4);
    lemma_fixed_length(c.month as nat, 2);
    lemma_fixed_length(c.day as nat, 2);
    let s = date_text(c);
    assert(s.subrange(k, 4 + k) =~= fixed_digits(year, 4));
    assert(s.subrange(5 + k, 7 + k) =~= fixed_digits(c.month as nat, 2));
    assert(s.subrange(8 + k, 10 + k) =~= fixed_digits(c.day as nat, 2));
    if c.year >= 0 {
        reveal_with_fuel(fixed_digits, 5);
        assert(s[0] == fixed_digits(year, 4)[0]);
        assert(fixed_digits(year, 4)[0] == digit(year / 10 / 10 / 10 % 10));
    }
}

/// The last digit and the digits before it can be read off.
proof fn lemma_last_digit(a: nat, b: nat, width: nat)
    requires
        width > 0,
        fixed_digits(a, width) == fixed_digits(b, width),
    ensures
        a % 10 == b % 10,
        fixed_digits(a / 10, (width - 1) as nat) == fixed_digits(b / 10, (width - 1) as nat),
{
    let w = (width - 1) as nat;
    let x = fixed_digits(a / 10, w);
    let y = fixed_digits(b / 10, w);
    assert(fixed_digits(a, width) == x.push(digit(a % 10)));
    assert(fixed_digits(b, width) == y.push(digit(b % 10)));
    assert(x.push(digit(a % 10)).last() == digit(a % 10));
    assert(y.push(digit(b % 10)).last() == digit(b % 10));
    assert(digit(a % 10) as int == 48 + a % 10);
    assert(digit(b % 10) as int == 48 + b % 10);
    assert(x.push(digit(a % 10)).drop_last() =~= x);
    assert(y.push(digit(b % 10)).drop_last() =~= y);
}

proof fn lemma_two_digits(a: nat, b: nat)
    requires
        a < 100,
        b < 100,
        fixed_digits(a, 2) == fixed_digits(b, 2),
    ensures
        a == b,
{
    lemma_last_digit(a, b, 2);
    lemma_last_digit(a / 10, b / 10, 1);
}

proof fn lemma_four_digits(a: nat, b: nat)
    requires
        a < 10000,
        b < 10000,
        fixed_digits(a, 4) == fixed_digits(b, 4),
    ensures
        a == b,
{
    lemma_last_digit(a, b, 4);
    lemma_last_digit(a / 10, b / 10, 3);
    lemma_two_digits(a / 100, b / 100);
}

/// Orders of different tickers on the same account, day and leg have different keys.
pub proof fn law_keys_are_per_ticker(
    account: Seq<char>,
    a: Seq<char>,
    b: Seq<char>,
    date: Civil,
    tag: Seq<char>,
)
    requires
        a != b,
    ensures
        order_key(account, a, date, tag) != order_key(account, b, date, tag),
{
    let front = account + ":"@;
    let rest = ":"@ + date_text(date) + ":"@ + tag;
    assert(order_key(account, a, date, tag) =~= (front + a) + rest);
    assert(order_key(account, b, date, tag) =~= (front + b) + rest);
    if order_key(account, a, date, tag) == order_key(account, b, date, tag) {
        lemma_prefix(front + a, front + b, rest);
        let n = front.len() as int;
        assert((front + a).skip(n) =~= a);
        assert((front + b).skip(n) =~= b);
    }
}

/// A key reads account, ticker, day and tag, with colons between them.
pub proof fn law_keys_read_account_ticker_day_and_tag(
    account: Seq<char>,
    ticker: Seq<char>,
    date: Civil,
    tag: Seq<char>,
)
    ensures
        order_key(account, ticker, date, tag) == account + seq![':'] + ticker + seq![':']
            + date_text(date) + seq![':'] + tag,
{
    reveal_strlit(":");
    assert(":"@ =~= seq![':']);
}

/// The model of an order shows its side, kind, shares, limit and tag.
pub proof fn law_the_model_of_an_order(order: OrderIntent)
    ensures
        order@.side == order.side,
        order@.kind == order.kind,
        order@.shares == order.shares@,
        order.limit matches Some(p) ==> order@.limit == Some(p@),
        order.limit is None ==> order@.limit is None,
        order@.tag == order.tag@,
{
}

} // verus!

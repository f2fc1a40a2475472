//! What the live broker adapters share: readers that turn broker text into domain values
//! (brokers send numeric fields as strings), and the rules of the token cache and the rate
//! limiter.

use crate::date::{civil, is_date, Civil, Date};
use crate::decimal::{
    count_of, decimal_parsed, law_counts_are_the_whole_part, lemma_sign, num, Dec, Decimal,
};
use crate::error::{DomainError, Failure};
use crate::money::{Price, Shares};
use crate::order::price_of;
use crate::text::{
    digit, fixed_digits, fixed_text, is_digit, join2, join3, law_fixed_widths_keep_the_last_digits,
    law_trimming_cuts_whitespace_alone, read_in_base_ten, trim, trimmed,
};
use vstd::prelude::*;
use vstd::string::*;

verus! {

/// One name and value of a request or a header.
#[derive(Debug)]
pub struct Field {
    pub name: &'static str,
    pub value: String,
}

/// The models of a list of fields.
pub open spec fn fields_of(fields: Seq<Field>) -> Seq<(Seq<char>, Seq<char>)> {
    Seq::new(fields.len(), |i: int| (fields[i].name@, fields[i].value@))
}

/// Add a field.
pub fn push_field(fields: &mut Vec<Field>, name: &'static str, value: &str)
    ensures
        fields_of(final(fields)@) == fields_of(old(fields)@).push((name@, value@)),
{
    fields.push(Field { name, value: value.to_owned() });
    assert(fields_of(fields@) =~= fields_of(old(fields)@).push((name@, value@)));
}

/// A number that was read, or the error that says which text was not one.
pub open spec fn number_of(raw: Seq<char>, parsed: Result<Dec, Seq<char>>) -> Result<
    Dec,
    Failure,
> {
    match parsed {
        Ok(d) => Ok(d),
        Err(e) => Err(Failure::Broker("invalid number '"@ + raw + "': "@ + e)),
    }
}

/// What a numeric field reads as.
pub open spec fn number_in(raw: Seq<char>) -> Result<Dec, Failure> {
    number_of(raw, decimal_parsed(trimmed(raw)))
}

/// The view of the outcome of reading a number.
pub open spec fn number_result(r: Result<Decimal, DomainError>) -> Result<Dec, Failure> {
    match r {
        Ok(d) => Ok(d@),
        Err(e) => Err(e@),
    }
}

/// The view of what a number was parsed as.
pub open spec fn parse_result(r: Result<Decimal, String>) -> Result<Dec, Seq<char>> {
    match r {
        Ok(d) => Ok(d@),
        Err(e) => Err(e@),
    }
}

/// The number that was parsed, or the error that says which text was not one.
pub fn number_or_error(raw: &str, parsed: Result<Decimal, String>) -> (r: Result<
    Decimal,
    DomainError,
>)
    ensures
        number_result(r) == number_of(raw@, parse_result(parsed)),
{
    match parsed {
        Ok(d) => Ok(d),
        Err(e) => Err(
            DomainError::Broker(join2(join3("invalid number '", raw, "': ").as_str(), e.as_str())),
        ),
    }
}

/// Read a numeric field.
pub fn parse_decimal(raw: &str) -> (r: Result<Decimal, DomainError>)
    ensures
        number_result(r) == number_in(raw@),
{
    number_or_error(raw, Decimal::parse(trim(raw)))
}

/// A date without separators: four digits of the year, two each of the month and the day.
pub open spec fn compact(c: Civil) -> Seq<char> {
    let year = if c.year >= 0 {
        fixed_digits(c.year as nat, 4)
    } else if c.year > -1000 {
        seq!['-'] + fixed_digits((-c.year) as nat, 3)
    } else {
        seq!['-'] + fixed_digits((-c.year) as nat, 4)
    };
    year + fixed_digits(c.month as nat, 2) + fixed_digits(c.day as nat, 2)
}

/// Format a date without separators.
pub fn yyyymmdd(date: Date) -> (r: String)
    ensures
        r@ == compact(date@),
        is_date(date@),
{
    let year: i32 = date.year();
    let month = fixed_text(date.month() as u64, 2);
    let day = fixed_text(date.day() as u64, 2);
    let shown = if year >= 0 {
        fixed_text(year as u64, 4)
    } else if year > -1000 {
        let r = join2("-", fixed_text((-year) as u64, 3).as_str());
        proof {
            reveal_strlit("-");
            assert("-"@ =~= seq!['-']);
        }
        r
    } else {
        let r = join2("-", fixed_text((-year) as u64, 4).as_str());
        proof {
            reveal_strlit("-");
            assert("-"@ =~= seq!['-']);
        }
        r
    };
    join3(shown.as_str(), month.as_str(), day.as_str())
}

/// The value of a digit.
pub open spec fn digit_value(c: char) -> int {
    c as int - 48
}

/// Whether a text is eight digits.
pub open spec fn is_compact(s: Seq<char>) -> bool {
    s.len() == 8 && forall|i: int| 0 <= i < 8 ==> is_digit(#[trigger] s[i])
}

/// The year, month and day that eight digits spell.
pub open spec fn spelled(s: Seq<char>) -> Civil {
    civil(
        1000 * digit_value(s[0]) + 100 * digit_value(s[1]) + 10 * digit_value(s[2]) + digit_value(
            s[3],
        ),
        10 * digit_value(s[4]) + digit_value(s[5]),
        10 * digit_value(s[6]) + digit_value(s[7]),
    )
}

/// The date that a text without separators reads as, `None` where it is none.
pub open spec fn compact_date(s: Seq<char>) -> Option<Civil> {
    if is_compact(s) && is_date(spelled(s)) {
        Some(spelled(s))
    } else {
        None
    }
}

/// What a date field reads as.
pub open spec fn date_in(raw: Seq<char>) -> Result<Civil, Failure> {
    match compact_date(trimmed(raw)) {
        Some(c) => Ok(c),
        None => Err(Failure::Broker("invalid KIS date '"@ + raw + "'"@)),
    }
}

/// The view of the outcome of reading a date.
pub open spec fn date_result(r: Result<Date, DomainError>) -> Result<Civil, Failure> {
    match r {
        Ok(d) => Ok(d@),
        Err(e) => Err(e@),
    }
}

fn digit_at(s: &str, i: usize) -> (r: u32)
    requires
        i < s@.len(),
        is_digit(s@[i as int]),
    ensures
        r == digit_value(s@[i as int]),
        r <= 9,
{
    s.get_char(i) as u32 - 48
}

/// The date that a text without separators reads as.
pub fn read_compact(s: &str) -> (r: Option<Date>)
    ensures
        match r {
            Some(d) => compact_date(s@) == Some(d@),
            None => compact_date(s@) is None,
        },
{
    if s.unicode_len() != 8 {
        return None;
    }
    let mut i: usize = 0;
    while i < 8
        invariant
            i <= 8,
            s@.len() == 8,
            forall|j: int| 0 <= j < i ==> is_digit(#[trigger] s@[j]),
        decreases 8 - i,
    {
        let c = s.get_char(i);
        if c < '0' || c > '9' {
            assert(!is_digit(s@[i as int]));
            return None;
        }
        i += 1;
    }
    let year: u32 = 1000 * digit_at(s, 0) + 100 * digit_at(s, 1) + 10 * digit_at(s, 2) + digit_at(
        s,
        3,
    );
    let month: u32 = 10 * digit_at(s, 4) + digit_at(s, 5);
    let day: u32 = 10 * digit_at(s, 6) + digit_at(s, 7);
    Date::from_calendar_date(year as i32, month as u8, day as u8)
}

/// Read a date field such as `20260625`.
pub fn parse_yyyymmdd(raw: &str) -> (r: Result<Date, DomainError>)
    ensures
        date_result(r) == date_in(raw@),
        is_compact(raw@) ==> (r matches Ok(d) ==> compact_date(raw@) == Some(d@)),
        is_compact(raw@) ==> (r is Ok <==> compact_date(raw@) is Some),
{
    let s = trim(raw);
    proof {
        if is_compact(raw@) {
            assert(is_digit(raw@[0]) && is_digit(raw@[7]));
            assert(trimmed(raw@) == raw@);
        }
    }
    match read_compact(s) {
        Some(d) => Ok(d),
        None => Err(DomainError::Broker(join3("invalid KIS date '", raw, "'"))),
    }
}

proof fn lemma_two(n: nat)
    requires
        n < 100,
    ensures
        fixed_digits(n, 2) == seq![digit(n / 10), digit(n % 10)],
{
    reveal_with_fuel(fixed_digits, 3);
    assert(fixed_digits(n, 2) =~= seq![digit(n / 10), digit(n % 10)]);
}

proof fn lemma_four(n: nat)
    requires
        n < 10000,
    ensures
        fixed_digits(n, 4) == seq![
            digit(n / 1000),
            digit(n / 100 % 10),
            digit(n / 10 % 10),
            digit(n % 10),
        ],
{
    reveal_with_fuel(fixed_digits, 5);
    assert(n / 10 / 10 == n / 100);
    assert(n / 100 / 10 == n / 1000);
    assert(fixed_digits(n, 4) =~= seq![
        digit(n / 1000),
        digit(n / 100 % 10),
        digit(n / 10 % 10),
        digit(n % 10),
    ]);
}

/// A date written without separators reads as itself.
pub proof fn law_compact_dates_round_trip(c: Civil)
    requires
        is_date(c),
        c.year >= 0,
    ensures
        compact_date(compact(c)) == Some(c),
{
    let y = c.year;
    let s = compact(c);
    let year = fixed_digits(y as nat, 4);
    let month = fixed_digits(c.month as nat, 2);
    let day = fixed_digits(c.day as nat, 2);
    lemma_four(y as nat);
    lemma_two(c.month as nat);
    lemma_two(c.day as nat);
    lemma_decimal_places(y);
    lemma_decimal_places(c.month);
    lemma_decimal_places(c.day);
    assert(s == year + month + day);
    assert(s.len() == 8);
    assert(s[0] == year[0] && s[1] == year[1] && s[2] == year[2] && s[3] == year[3]);
    assert(s[4] == month[0] && s[5] == month[1]);
    assert(s[6] == day[0] && s[7] == day[1]);
    assert(s[0] as int == 48 + y / 1000);
    assert(s[1] as int == 48 + y / 100 % 10);
    assert(s[2] as int == 48 + y / 10 % 10);
    assert(s[3] as int == 48 + y % 10);
    assert(s[4] as int == 48 + c.month / 10);
    assert(s[5] as int == 48 + c.month % 10);
    assert(s[6] as int == 48 + c.day / 10);
    assert(s[7] as int == 48 + c.day % 10);
    assert(forall|i: int| 0 <= i < 8 ==> is_digit(#[trigger] s[i]));
}

/// A number below ten thousand is made up of its digits.
proof fn lemma_decimal_places(n: int)
    requires
        0 <= n < 10000,
    ensures
        n == 1000 * (n / 1000) + 100 * (n / 100 % 10) + 10 * (n / 10 % 10) + n % 10,
        n == 10 * (n / 10) + n % 10,
        0 <= n / 1000 < 10,
        0 <= n / 100 % 10 < 10,
        0 <= n / 10 % 10 < 10,
        0 <= n % 10 < 10,
{
    let tens = n / 10;
    let hundreds = tens / 10;
    let thousands = hundreds / 10;
    assert(n / 100 == hundreds);
    assert(n / 1000 == thousands);
    assert(n == 10 * tens + n % 10);
    assert(tens == 10 * hundreds + tens % 10);
    assert(hundreds == 10 * thousands + hundreds % 10);
}

/// What a price field reads as: no price where it is empty or not positive.
pub open spec fn price_in(raw: Seq<char>) -> Result<Option<Dec>, Failure> {
    let s = trimmed(raw);
    if s.len() == 0 {
        Ok(None)
    } else {
        match number_in(s) {
            Ok(d) => Ok(
                if d.0 > 0 {
                    Some(d)
                } else {
                    None
                },
            ),
            Err(e) => Err(e),
        }
    }
}

/// The view of the outcome of reading a price.
pub open spec fn price_result(r: Result<Option<Price>, DomainError>) -> Result<
    Option<Dec>,
    Failure,
> {
    match r {
        Ok(p) => Ok(price_of(p)),
        Err(e) => Err(e@),
    }
}

/// Read a price field; empty or non-positive input becomes `None` (such as a flat lot).
pub fn parse_price_opt(raw: &str) -> (r: Result<Option<Price>, DomainError>)
    ensures
        price_result(r) == price_in(raw@),
{
    let s = trim(raw);
    if s.is_empty() {
        return Ok(None);
    }
    match parse_decimal(s) {
        Ok(d) => Ok(Price::new(d)),
        Err(e) => Err(e),
    }
}

/// The whole shares of a number.
pub open spec fn shares_of(raw: Seq<char>, number: Dec) -> Result<u32, Failure> {
    match count_of(number) {
        Some(n) => Ok(n),
        None => Err(Failure::Broker("invalid quantity '"@ + raw + "'"@)),
    }
}

/// What a quantity field reads as: its whole part.
pub open spec fn shares_in(raw: Seq<char>) -> Result<u32, Failure> {
    match number_in(raw) {
        Ok(d) => shares_of(raw, d),
        Err(e) => Err(e),
    }
}

/// The view of the outcome of reading a quantity.
pub open spec fn shares_result(r: Result<Shares, DomainError>) -> Result<u32, Failure> {
    match r {
        Ok(n) => Ok(n@),
        Err(e) => Err(e@),
    }
}

/// The whole shares of a number that a field was read as.
pub fn shares_or_error(raw: &str, number: Decimal) -> (r: Result<Shares, DomainError>)
    ensures
        shares_result(r) == shares_of(raw@, number@),
{
    match number.to_u32() {
        Some(n) => Ok(Shares::new(n)),
        None => Err(DomainError::Broker(join3("invalid quantity '", raw, "'"))),
    }
}

/// Read a quantity field.
pub fn parse_shares(raw: &str) -> (r: Result<Shares, DomainError>)
    ensures
        shares_result(r) == shares_in(raw@),
{
    match parse_decimal(raw) {
        Ok(d) => shares_or_error(raw, d),
        Err(e) => Err(e),
    }
}

/// How many seconds a token is kept that is granted for some.
pub open spec fn kept_seconds(granted: nat) -> nat {
    if granted >= 60 {
        (granted - 60) as nat
    } else {
        0
    }
}

/// How many seconds a token is kept: what the broker grants less a minute.
pub fn token_seconds(expires_in: u64) -> (r: u64)
    ensures
        r == kept_seconds(expires_in as nat),
        r == if expires_in >= 60 {
            (expires_in - 60) as u64
        } else {
            0u64
        },
        r <= expires_in,
        r > 0 ==> r + 60 == expires_in,
{
    if expires_in >= 60 {
        expires_in - 60
    } else {
        0
    }
}

/// How many seconds are left until a token expires, if any.
pub open spec fn remaining(expires: int, now: int) -> Option<u64> {
    if expires <= now {
        None
    } else {
        Some((expires - now) as u64)
    }
}

/// The second at which a token expires.
pub open spec fn expiry(now: int, seconds: nat) -> int {
    now + seconds
}

/// How many seconds a token kept on disk is still good for; `None` once it has expired. The
/// test comes before the cast: a negative remainder would wrap to an endless one.
pub fn seconds_left(expires_at_unix: i64, now_unix: i64) -> (r: Option<u64>)
    ensures
        r == remaining(expires_at_unix as int, now_unix as int),
{
    if expires_at_unix <= now_unix {
        return None;
    }
    Some((expires_at_unix as i128 - now_unix as i128) as u64)
}

/// The second at which a token expires that was issued now.
pub fn expiry_at(now_unix: i64, seconds: u64) -> (r: i64)
    requires
        now_unix + seconds <= i64::MAX,
        seconds <= i64::MAX,
    ensures
        r == expiry(now_unix as int, seconds as nat),
{
    now_unix + seconds as i64
}

/// A saved token is good for exactly as long as it was granted: what is left of it is what was
/// granted less the time since, and nothing once that is used up.
pub proof fn law_saved_token_is_good_until_it_expires(saved: i64, seconds: u64, now: i64)
    requires
        saved <= now,
    ensures
        remaining(expiry(saved as int, seconds as nat), now as int) == if now - saved < seconds {
            Some((seconds - (now - saved)) as u64)
        } else {
            None::<u64>
        },
{
}

/// What a token cache does next for a caller that wants a token.
#[derive(Clone, Copy, Debug, PartialEq, Eq, Structural)]
pub enum TokenStep {
    /// Hand out the token in memory.
    UseKept,
    /// Look into the store.
    ReadStore,
    /// Hand out the token of the store, and keep it in memory for so many seconds.
    UseSaved(u64),
    /// Ask the broker for a new one, keep it in memory, and save it where there is a store.
    Fetch,
}

/// What comes first: the token in memory, by the nanoseconds that it is still good for.
pub open spec fn kept_step(nanos_left: Option<u128>, has_store: bool) -> TokenStep {
    if nanos_left is Some && nanos_left->0 > 0 {
        TokenStep::UseKept
    } else if has_store {
        TokenStep::ReadStore
    } else {
        TokenStep::Fetch
    }
}

/// What comes first: the token in memory, by the nanoseconds that it is still good for.
pub fn kept_token_step(nanos_left: Option<u128>, has_store: bool) -> (r: TokenStep)
    ensures
        r == kept_step(nanos_left, has_store),
{
    if let Some(left) = nanos_left {
        if left > 0 {
            return TokenStep::UseKept;
        }
    }
    if has_store {
        TokenStep::ReadStore
    } else {
        TokenStep::Fetch
    }
}

/// What follows on the store, by the second at which the token in it expires, if there is one.
pub open spec fn saved_step(expires: Option<i64>, now: i64) -> TokenStep {
    match expires {
        Some(at) => match remaining(at as int, now as int) {
            Some(left) => TokenStep::UseSaved(left),
            None => TokenStep::Fetch,
        },
        None => TokenStep::Fetch,
    }
}

/// What follows on the store, by the second at which the token in it expires, if there is one.
pub fn saved_token_step(expires: Option<i64>, now: i64) -> (r: TokenStep)
    ensures
        r == saved_step(expires, now),
{
    match expires {
        Some(at) => match seconds_left(at, now) {
            Some(left) => TokenStep::UseSaved(left),
            None => TokenStep::Fetch,
        },
        None => TokenStep::Fetch,
    }
}

/// A new token is asked for exactly if neither the one in memory nor the one in the store is
/// good, and no token is handed out that has expired.
pub proof fn law_a_token_is_fetched_only_when_none_is_good(
    nanos_left: Option<u128>,
    has_store: bool,
    expires: Option<i64>,
    now: i64,
)
    ensures
        kept_step(nanos_left, has_store) == TokenStep::UseKept <==> nanos_left is Some
            && nanos_left->0 > 0,
        kept_step(nanos_left, has_store) == TokenStep::Fetch <==> !(nanos_left is Some
            && nanos_left->0 > 0) && !has_store,
        saved_step(expires, now) == TokenStep::Fetch <==> !(expires is Some && now < expires->0),
        saved_step(expires, now) matches TokenStep::UseSaved(left) ==> now + left == expires->0
            && left > 0,
{
}

/// How long to wait before the next request, by the time since the last one.
pub open spec fn wait_for(since_last: Option<u64>, interval: u64) -> int {
    match since_last {
        Some(elapsed) => if elapsed < interval {
            interval - elapsed
        } else {
            0
        },
        None => 0,
    }
}

/// How long to wait before the next request: until the interval since the last one is over.
pub fn spacing_wait(since_last: Option<u64>, interval: u64) -> (r: u64)
    ensures
        r == wait_for(since_last, interval),
        r == match since_last {
            Some(elapsed) => if elapsed < interval {
                (interval - elapsed) as u64
            } else {
                0u64
            },
            None => 0u64,
        },
        since_last is Some ==> since_last->0 + r >= interval,
{
    match since_last {
        Some(elapsed) => if elapsed < interval {
            interval - elapsed
        } else {
            0
        },
        None => 0,
    }
}

/// How often a request that may safely be repeated is sent at most.
pub const MAX_ATTEMPTS: u32 = 3;

/// How long to wait before a request is repeated after a number of attempts, `None` if it is
/// not.
pub open spec fn repeat_wait(status: u16, attempts: u32, backoff_millis: u32) -> Option<int> {
    if 500 <= status < 600 && attempts < MAX_ATTEMPTS {
        Some(
            if attempts == 1 {
                backoff_millis as int
            } else {
                2 * backoff_millis
            },
        )
    } else {
        None
    }
}

/// How long to wait before a request is repeated, `None` if it is not: only a server error is
/// taken to be transient, and the wait doubles each time.
pub fn retry_wait(status: u16, attempts: u32, backoff_millis: u32) -> (r: Option<u64>)
    requires
        1 <= attempts <= MAX_ATTEMPTS,
    ensures
        match r {
            Some(wait) => repeat_wait(status, attempts, backoff_millis) == Some(wait as int),
            None => repeat_wait(status, attempts, backoff_millis) is None,
        },
        r == if 500 <= status < 600 && attempts < MAX_ATTEMPTS {
            Some(
                if attempts == 1 {
                    backoff_millis as u64
                } else {
                    (2 * backoff_millis) as u64
                },
            )
        } else {
            None::<u64>
        },
        r is Some <==> 500 <= status <= 599 && attempts < 3,
{
    if status < 500 || status >= 600 || attempts >= MAX_ATTEMPTS {
        return None;
    }
    if attempts == 1 {
        Some(backoff_millis as u64)
    } else {
        Some(2 * backoff_millis as u64)
    }
}

/// A numeric field is the number that its trimmed text parses as, and a broker error where that
/// is none.
pub proof fn law_numbers_are_read_trimmed(raw: Seq<char>)
    ensures
        number_in(raw) is Ok <==> decimal_parsed(trimmed(raw)) is Ok,
        number_in(raw) is Ok ==> decimal_parsed(trimmed(raw)) == Ok::<Dec, Seq<char>>(
            number_in(raw)->Ok_0,
        ),
        decimal_parsed(trimmed(raw)) matches Err(e) ==> number_in(raw) == Err::<Dec, Failure>(
            Failure::Broker("invalid number '"@ + raw + "': "@ + e),
        ),
{
}

/// A price field is a price exactly where it holds a positive number, and is then that number.
/// A blank one, or one that is not positive, is none; anything else is an error.
pub proof fn law_prices_are_positive_numbers(raw: Seq<char>)
    ensures
        price_in(raw) matches Ok(Some(d)) ==> decimal_parsed(trimmed(raw)) == Ok::<Dec, Seq<char>>(
            d,
        ) && num(d) > 0real,
        trimmed(raw).len() > 0 ==> (decimal_parsed(trimmed(raw)) matches Ok(d) ==> price_in(raw)
            is Ok && (price_in(raw)->Ok_0 is Some <==> num(d) > 0real)),
        trimmed(raw).len() == 0 ==> price_in(raw) == Ok::<Option<Dec>, Failure>(None),
        trimmed(raw).len() > 0 && decimal_parsed(trimmed(raw)) is Err ==> price_in(raw) is Err
            && price_in(raw)->Err_0 is Broker,
{
    let (a, b) = law_trimming_cuts_whitespace_alone(raw);
    if trimmed(raw).len() > 0 && decimal_parsed(trimmed(raw)) is Ok {
        lemma_sign(decimal_parsed(trimmed(raw))->Ok_0);
    }
}

/// A quantity field is the whole part of its number: as `n` where the number is not negative, at
/// least `n` and below the next whole one. Anything else is an error.
pub proof fn law_quantities_are_whole_parts(raw: Seq<char>, n: u32)
    ensures
        shares_in(raw) == Ok::<u32, Failure>(n) <==> decimal_parsed(trimmed(raw)) is Ok && ({
            let d = decimal_parsed(trimmed(raw))->Ok_0;
            d.0 >= 0 && n as real <= num(d) < n as real + 1real
        }),
        shares_in(raw) is Err ==> shares_in(raw)->Err_0 is Broker,
{
    if decimal_parsed(trimmed(raw)) is Ok {
        law_counts_are_the_whole_part(decimal_parsed(trimmed(raw))->Ok_0, n);
    }
}

/// A date field is read exactly where its trimmed text is eight digits that spell a date: four
/// of the year, two of the month, two of the day.
pub proof fn law_dates_are_spelled_in_eight_digits(raw: Seq<char>, c: Civil)
    ensures
        date_in(raw) == Ok::<Civil, Failure>(c) ==> is_date(c) && trimmed(raw).len() == 8
            && read_in_base_ten(trimmed(raw)) == 10000 * c.year + 100 * c.month + c.day
            && 0 <= c.year < 10000 && 0 <= c.month < 100 && 0 <= c.day < 100,
        date_in(raw) is Ok ==> forall|i: int|
            0 <= i < 8 ==> '0' <= #[trigger] trimmed(raw)[i] <= '9',
        date_in(raw) is Err ==> date_in(raw)->Err_0 is Broker,
{
    let s = trimmed(raw);
    if date_in(raw) is Ok {
        assert(is_compact(s));
        assert forall|i: int| 0 <= i < 8 implies '0' <= #[trigger] s[i] <= '9' by {
            assert(is_digit(s[i]));
        }
        lemma_eight(s);
    }
}

proof fn lemma_eight(s: Seq<char>)
    requires
        s.len() == 8,
    ensures
        read_in_base_ten(s) == 10000000 * digit_value(s[0]) + 1000000 * digit_value(s[1]) + 100000
            * digit_value(s[2]) + 10000 * digit_value(s[3]) + 1000 * digit_value(s[4]) + 100
            * digit_value(s[5]) + 10 * digit_value(s[6]) + digit_value(s[7]),
{
    reveal_with_fuel(read_in_base_ten, 9);
    let s7 = s.drop_last();
    let s6 = s7.drop_last();
    let s5 = s6.drop_last();
    let s4 = s5.drop_last();
    let s3 = s4.drop_last();
    let s2 = s3.drop_last();
    let s1 = s2.drop_last();
    assert(s1.drop_last().len() == 0);
    assert(read_in_base_ten(s1) == digit_value(s[0]));
    assert(read_in_base_ten(s2) == 10 * read_in_base_ten(s1) + digit_value(s[1]));
    assert(read_in_base_ten(s3) == 10 * read_in_base_ten(s2) + digit_value(s[2]));
    assert(read_in_base_ten(s4) == 10 * read_in_base_ten(s3) + digit_value(s[3]));
    assert(read_in_base_ten(s5) == 10 * read_in_base_ten(s4) + digit_value(s[4]));
    assert(read_in_base_ten(s6) == 10 * read_in_base_ten(s5) + digit_value(s[5]));
    assert(read_in_base_ten(s7) == 10 * read_in_base_ten(s6) + digit_value(s[6]));
}

/// A token expires so many seconds after it is issued, and what is left of it is the time until
/// then, as long as there is any.
pub proof fn law_tokens_expire_after_their_seconds(now: int, seconds: nat, expires: i64, later: i64)
    ensures
        expiry(now, seconds) - now == seconds,
        remaining(expires as int, later as int) is Some <==> later < expires,
        remaining(expires as int, later as int) matches Some(left) ==> later + left == expires,
{
}

/// A token is given up a minute before it expires, and one that is granted for no more than a
/// minute at once.
pub proof fn law_tokens_are_given_up_a_minute_early(granted: nat)
    ensures
        granted > 60 ==> kept_seconds(granted) + 60 == granted,
        granted <= 60 ==> kept_seconds(granted) == 0,
{
}

/// Waiting brings the time since the last request to the interval, and goes no further; without
/// a last request, or after the interval, there is no wait.
pub proof fn law_waiting_fills_up_the_interval(since_last: Option<u64>, interval: u64)
    ensures
        since_last is None ==> wait_for(since_last, interval) == 0,
        since_last matches Some(elapsed) ==> (elapsed < interval ==> elapsed + wait_for(
            since_last,
            interval,
        ) == interval),
        since_last matches Some(elapsed) ==> (elapsed >= interval ==> wait_for(
            since_last,
            interval,
        ) == 0),
{
}

/// A request is repeated exactly after a server error, status 500 to 599, and until it was sent
/// three times. The first wait is the backoff, and the second twice as long.
pub proof fn law_server_errors_alone_are_retried(status: u16, attempts: u32, backoff_millis: u32)
    requires
        attempts >= 1,
    ensures
        repeat_wait(status, attempts, backoff_millis) is Some <==> 500 <= status <= 599 && (attempts
            == 1 || attempts == 2),
        repeat_wait(status, attempts, backoff_millis) matches Some(wait) ==> wait == attempts
            * backoff_millis,
{
}

/// A date without separators is its year, month and day in eight characters: digits alone, or
/// from the year -999 on a minus and three digits of the year. Earlier years take one more.
pub proof fn law_compact_dates_have_eight_characters(c: Civil)
    requires
        is_date(c),
    ensures
        ({
            let s = compact(c);
            let n = s.len() as int;
            &&& c.year > -1000 ==> n == 8
            &&& c.year <= -1000 ==> n == 9
            &&& c.year < 0 <==> s[0] == '-'
            &&& c.year >= 0 ==> read_in_base_ten(s.subrange(0, n - 4)) == c.year
            &&& c.year < 0 ==> read_in_base_ten(s.subrange(1, n - 4)) == -c.year
            &&& read_in_base_ten(s.subrange(n - 4, n - 2)) == c.month
            &&& read_in_base_ten(s.subrange(n - 2, n)) == c.day
        }),
{
    let years = if c.year < 0 { (-c.year) as nat } else { c.year as nat };
    law_fixed_widths_keep_the_last_digits(years, 4);
    law_fixed_widths_keep_the_last_digits(years, 3);
    law_fixed_widths_keep_the_last_digits(c.month as nat, 2);
    law_fixed_widths_keep_the_last_digits(c.day as nat, 2);
    assert(vstd::arithmetic::power::pow(10, 4) == 10000 && vstd::arithmetic::power::pow(10, 3)
        == 1000 && vstd::arithmetic::power::pow(10, 2) == 100) by {
        reveal_with_fuel(vstd::arithmetic::power::pow, 5);
    }
    let s = compact(c);
    let n = s.len() as int;
    assert(s.subrange(n - 4, n - 2) =~= fixed_digits(c.month as nat, 2));
    assert(s.subrange(n - 2, n) =~= fixed_digits(c.day as nat, 2));
    if c.year >= 0 {
        assert(s.subrange(0, n - 4) =~= fixed_digits(years, 4));
        lemma_four(years);
        assert(s[0] == digit(years / 1000));
    } else if c.year > -1000 {
        assert(s.subrange(1, n - 4) =~= fixed_digits(years, 3));
    } else {
        assert(s.subrange(1, n - 4) =~= fixed_digits(years, 4));
    }
}

} // verus!

//! Market calendar: trading-date logic, per [`Market`].
//!
//! A trading calendar is a property of the market, not of any one broker. Every function
//! takes the current instant (or a date) as input.
//!
//! The "trading date" is the market's local session date: [`Market::UsEquity`] uses US
//! Eastern time (with daylight saving), [`Market::KrEquity`] uses Korea time (UTC+9, no
//! daylight saving). The idempotency key and the reconcile boundary key on it, so a rerun
//! at any wall-clock time of the same local session maps to one date.

use crate::date::{
    civil, covers, day_after, day_at, day_number, day_start, days_before_month,
    days_before_year, days_in_month, in_calendar, is_date, lemma_day_after, lemma_order,
    month_length, shown, weekday_number, Civil, Date, Time, Timestamp, Weekday, FIRST_DAY,
    FIRST_YEAR, LAST_DAY, LAST_YEAR, NANOS_PER_DAY, NANOS_PER_HOUR,
};
use vstd::arithmetic::div_mod::{lemma_div_is_ordered, lemma_fundamental_div_mod};
use vstd::prelude::*;

verus! {

/// The market whose trading calendar applies to a position.
#[derive(Clone, Copy, Debug, PartialEq, Eq, Structural)]
pub enum Market {
    /// US equities: sessions keyed to US Eastern time, NYSE holidays.
    UsEquity,
    /// Korean equities: sessions keyed to Korea Standard Time.
    KrEquity,
}

/// The number of the `n`-th given weekday of a month.
#[verifier::opaque]
pub open spec fn nth_number(year: int, month: int, weekday: int, n: int) -> int {
    let first = civil(year, month, 1);
    day_number(first) + (weekday - weekday_number(first)) % 7 + 7 * (n - 1)
}

/// The number of the last given weekday of a month.
#[verifier::opaque]
pub open spec fn last_number(year: int, month: int, weekday: int) -> int {
    let last = civil(year, month, month_length(year, month));
    day_number(last) - (weekday_number(last) - weekday) % 7
}

/// The day in the month of the `n`-th given weekday.
pub open spec fn nth_day(year: int, month: int, weekday: int, n: int) -> int {
    nth_number(year, month, weekday, n) - day_number(civil(year, month, 1)) + 1
}

/// The day on which daylight saving starts: the second Sunday of March.
pub open spec fn spring(year: int) -> int {
    nth_number(year, 3, 0, 2)
}

/// The day on which daylight saving ends: the first Sunday of November.
pub open spec fn fall(year: int) -> int {
    nth_number(year, 11, 0, 1)
}

/// Whether an instant is in the daylight saving of a year: from 07:00 UTC on the day it
/// starts to 06:00 UTC on the day it ends.
pub open spec fn in_summer_of(nanos: int, year: int) -> bool {
    &&& FIRST_YEAR <= year <= LAST_YEAR
    &&& day_start(spring(year)) + 7 * NANOS_PER_HOUR <= nanos < day_start(fall(year)) + 6
        * NANOS_PER_HOUR
}

/// The hours by which US Eastern time is ahead of UTC at an instant.
pub open spec fn eastern_hours(now: Timestamp) -> int {
    if exists|year: int| in_summer_of(now.unix_nanos as int, year) {
        -4
    } else {
        -5
    }
}

/// What a US Eastern clock shows at an instant.
pub open spec fn eastern_shown(now: Timestamp) -> int {
    shown(now, eastern_hours(now))
}

/// The hours by which US Eastern time is ahead of UTC on a date.
pub open spec fn eastern_hours_on(date: Civil) -> int {
    if spring(date.year) <= day_number(date) < fall(date.year) {
        -4
    } else {
        -5
    }
}

/// The instant, in nanoseconds, at which a US Eastern clock shows a date and time.
pub open spec fn eastern_instant(date: Civil, time: Time) -> int {
    day_start(day_number(date)) + time.nanos - eastern_hours_on(date) * NANOS_PER_HOUR
}

/// The number of the trading date of a market at an instant.
pub open spec fn session_day(market: Market, now: Timestamp) -> int {
    match market {
        Market::UsEquity => day_at(eastern_shown(now)),
        Market::KrEquity => day_at(shown(now, 9)),
    }
}

/// Whether the calendar covers an instant, in UTC and on the clock of a market.
pub open spec fn market_knows(market: Market, now: Timestamp) -> bool {
    in_calendar(now.unix_nanos as int) && match market {
        Market::UsEquity => in_calendar(eastern_shown(now)),
        Market::KrEquity => in_calendar(shown(now, 9)),
    }
}

/// The number of the day on which a holiday is kept: the Friday before a Saturday, the
/// Monday after a Sunday.
pub open spec fn observed_number(day: int) -> int {
    if day % 7 == 6 {
        day - 1
    } else if day % 7 == 0 {
        day + 1
    } else {
        day
    }
}

/// Division that drops the fraction.
#[verifier::opaque]
pub open spec fn quotient(a: int, b: int) -> int {
    if a >= 0 {
        a / b
    } else {
        -(-a / b)
    }
}

/// What is left of that division.
#[verifier::opaque]
pub open spec fn remainder(a: int, b: int) -> int {
    a - b * quotient(a, b)
}

/// The number that the anonymous Gregorian algorithm ends with: 31 times the month of Easter
/// Sunday plus the day of the month less one.
#[verifier::opaque]
pub open spec fn computus(year: int) -> int {
    let a = remainder(year, 19);
    let b = quotient(year, 100);
    let c = remainder(year, 100);
    let d = quotient(b, 4);
    let e = remainder(b, 4);
    let f = quotient(b + 8, 25);
    let g = quotient(b - f + 1, 3);
    let h = remainder(19 * a + b - d - g + 15, 30);
    let i = quotient(c, 4);
    let k = remainder(c, 4);
    let l = remainder(32 + 2 * e + 2 * i - h - k, 7);
    let m = quotient(a + 11 * h + 22 * l, 451);
    h + l - 7 * m + 114
}

/// Easter Sunday.
pub open spec fn easter(year: int) -> Civil {
    civil(year, quotient(computus(year), 31), remainder(computus(year), 31) + 1)
}

/// Whether the calendar of holidays is known for a year: it is for every year from 0 on.
pub open spec fn year_known(year: int) -> bool {
    is_date(easter(year))
}

/// Whether it is known of a date if it is a trading day: of a weekend it is without the
/// holidays of the year.
pub open spec fn day_told(date: Civil) -> bool {
    weekday_number(date) == 0 || weekday_number(date) == 6 || year_known(date.year)
}

/// The days the NYSE is closed in a year, in the order of the calendar.
pub open spec fn holiday_numbers(year: int) -> Seq<int> {
    let new_year = day_number(civil(year, 1, 1));
    let new_year_days = if new_year % 7 == 6 {
        Seq::empty()
    } else {
        seq![observed_number(new_year)]
    };
    let juneteenth = if year >= 2022 {
        seq![observed_number(day_number(civil(year, 6, 19)))]
    } else {
        Seq::empty()
    };
    new_year_days + seq![
        nth_number(year, 1, 1, 3),
        nth_number(year, 2, 1, 3),
        day_number(easter(year)) - 2,
        last_number(year, 5, 1),
    ] + juneteenth + seq![
        observed_number(day_number(civil(year, 7, 4))),
        nth_number(year, 9, 1, 1),
        nth_number(year, 11, 4, 4),
        observed_number(day_number(civil(year, 12, 25))),
    ]
}

/// Whether a date is a US equity trading day: a weekday that is no NYSE holiday.
pub open spec fn is_open(date: Civil) -> bool {
    1 <= weekday_number(date) <= 5 && !holiday_numbers(date.year).contains(day_number(date))
}

/// The `n`-th given weekday of a month is in the `n`-th seven days of it.
pub proof fn lemma_nth(year: int, month: int, weekday: int, n: int)
    requires
        0 <= weekday < 7,
    ensures
        7 * (n - 1) < nth_day(year, month, weekday, n) <= 7 * n,
        nth_number(year, month, weekday, n) % 7 == weekday,
{
    reveal(nth_number);
}

/// The last given weekday of a month is in the last seven days of it.
pub proof fn lemma_last(year: int, month: int, weekday: int)
    requires
        0 <= weekday < 7,
    ensures
        last_number(year, month, weekday) % 7 == weekday,
        0 <= day_number(civil(year, month, month_length(year, month))) - last_number(
            year,
            month,
            weekday,
        ) < 7,
{
    reveal(last_number);
}

/// Whether the calendar covers an instant, in UTC and on the clock of a market.
pub fn knows_market(market: Market, now: Timestamp) -> (r: bool)
    ensures
        r == market_knows(market, now),
{
    if !covers(now.unix_nanos) {
        return false;
    }
    let hours: i8 = match market {
        Market::UsEquity => us_eastern_offset(now),
        Market::KrEquity => 9,
    };
    covers(now.unix_nanos + hours as i128 * NANOS_PER_HOUR)
}

/// The market's local trading date for an instant; `None` outside the calendar.
pub fn try_trading_date(market: Market, now: Timestamp) -> (r: Option<Date>)
    ensures
        match r {
            Some(d) => market_knows(market, now) && is_date(d@) && day_number(d@) == session_day(
                market,
                now,
            ),
            None => !market_knows(market, now),
        },
{
    if knows_market(market, now) {
        Some(trading_date(market, now))
    } else {
        None
    }
}

/// The market's local trading date for an instant.
pub fn trading_date(market: Market, now: Timestamp) -> (r: Date)
    requires
        market_knows(market, now),
    ensures
        is_date(r@),
        day_number(r@) == session_day(market, now),
{
    match market {
        Market::UsEquity => us_eastern_date(now),
        Market::KrEquity => now.local(9).0,
    }
}

/// The US Eastern calendar date for an instant, honoring daylight saving time.
pub fn us_eastern_date(now: Timestamp) -> (r: Date)
    requires
        market_knows(Market::UsEquity, now),
    ensures
        is_date(r@),
        day_number(r@) == day_at(eastern_shown(now)),
{
    eastern(now).0
}

/// The US Eastern date and time of day at an instant.
pub fn eastern(now: Timestamp) -> (r: (Date, Time))
    requires
        market_knows(Market::UsEquity, now),
    ensures
        is_date(r.0@),
        day_number(r.0@) == day_at(eastern_shown(now)),
        r.1.wf(),
        r.1.nanos == eastern_shown(now) % NANOS_PER_DAY as int,
{
    let hours: i8 = us_eastern_offset(now);
    now.local(hours)
}

/// The hours by which US Eastern time is ahead of UTC at an instant.
pub fn us_eastern_offset(now: Timestamp) -> (r: i8)
    requires
        in_calendar(now.unix_nanos as int),
    ensures
        r == eastern_hours(now),
{
    let (today, _) = now.local(0);
    let (spring_date, fall_date) = dst_window(today.year());
    // Spring forward: 02:00 EST is 07:00 UTC. Fall back: 02:00 EDT is 06:00 UTC.
    let start = Timestamp::from_local(spring_date, Time::from_hm(7, 0), 0);
    let end = Timestamp::from_local(fall_date, Time::from_hm(6, 0), 0);
    let ghost t = now.unix_nanos as int;
    proof {
        assert(shown(now, 0) == t);
        assert forall|year: int| in_summer_of(t, year) implies year == today@.year by {
            lemma_summer_is_within(t, year, today@);
        }
    }
    if start.unix_nanos <= now.unix_nanos && now.unix_nanos < end.unix_nanos {
        assert(in_summer_of(t, today@.year));
        -4
    } else {
        -5
    }
}

proof fn lemma_summer_is_within(t: int, year: int, today: Civil)
    requires
        in_summer_of(t, year),
        is_date(today),
        day_number(today) == day_at(t),
    ensures
        year == today.year,
{
    let march = civil(year, 3, 1);
    let november = civil(year, 11, 30);
    lemma_nth(year, 3, 0, 2);
    lemma_nth(year, 11, 0, 1);
    lemma_order(march, today);
    lemma_order(today, november);
    lemma_order(today, march);
    lemma_order(november, today);
}

/// The US daylight saving window of a year: from the second Sunday of March to the first
/// Sunday of November.
pub fn dst_window(year: i32) -> (r: (Date, Date))
    requires
        FIRST_YEAR <= year <= LAST_YEAR,
    ensures
        r.0@.year == year,
        r.1@.year == year,
        is_date(r.0@),
        is_date(r.1@),
        day_number(r.0@) == spring(year as int),
        day_number(r.1@) == fall(year as int),
{
    proof {
        lemma_nth(year as int, 3, 0, 2);
        lemma_nth(year as int, 11, 0, 1);
    }
    (nth_weekday(year, 3, Weekday::Sunday, 2), nth_weekday(year, 11, Weekday::Sunday, 1))
}

/// The instant at which the US Eastern wall clock shows `date` and `time`.
pub fn eastern_at(date: Date, time: Time) -> (r: Timestamp)
    requires
        time.wf(),
    ensures
        is_date(date@),
        r.unix_nanos == eastern_instant(date@, time),
{
    let (start, end) = dst_window(date.year());
    if !date.is_before(&start) && date.is_before(&end) {
        Timestamp::from_local(date, time, -4)
    } else {
        Timestamp::from_local(date, time, -5)
    }
}

/// Whether it is known of `date` if it is a trading day.
pub fn tells_day(date: Date) -> (r: bool)
    ensures
        is_date(date@),
        r == day_told(date@),
{
    let weekday = date.weekday();
    weekday == Weekday::Saturday || weekday == Weekday::Sunday || knows_year(date.year())
}

/// Whether `date` is a US equity trading day: a weekday that is not a NYSE holiday.
pub fn is_trading_day(date: Date) -> (r: bool)
    requires
        day_told(date@),
    ensures
        is_date(date@),
        r == is_open(date@),
{
    let weekday = date.weekday();
    if weekday == Weekday::Saturday || weekday == Weekday::Sunday {
        return false;
    }
    let holidays = nyse_holidays(date.year());
    let ghost numbers = holiday_numbers(date@.year);
    let mut i: usize = 0;
    while i < holidays.len()
        invariant
            i <= holidays.len(),
            is_date(date@),
            numbers == holiday_numbers(date@.year),
            numbers.len() == holidays.len(),
            forall|j: int|
                0 <= j < holidays.len() ==> is_date(holidays[j]@) && day_number(
                    #[trigger] holidays[j]@,
                ) == numbers[j],
            forall|j: int| 0 <= j < i ==> numbers[j] != day_number(date@),
        decreases holidays.len() - i,
    {
        proof {
            lemma_order(holidays[i as int]@, date@);
        }
        if holidays[i] == date {
            assert(numbers[i as int] == day_number(date@));
            return false;
        }
        i += 1;
    }
    true
}

/// The dates the NYSE is closed in `year` (the days the holidays are kept on).
pub fn nyse_holidays(year: i32) -> (r: Vec<Date>)
    requires
        FIRST_YEAR <= year <= LAST_YEAR,
        year_known(year as int),
    ensures
        r.len() == holiday_numbers(year as int).len(),
        forall|i: int|
            0 <= i < r.len() ==> is_date(r[i]@) && day_number(#[trigger] r[i]@) == holiday_numbers(
                year as int,
            )[i],
{
    let mut days: Vec<Date> = Vec::new();
    proof {
        lemma_nth(year as int, 1, 1, 3);
        lemma_nth(year as int, 2, 1, 3);
        lemma_nth(year as int, 9, 1, 1);
        lemma_nth(year as int, 11, 4, 4);
    }
    // New Year's Day: no Saturday make-up; a Sunday one is kept on the Monday.
    let new_year = ymd(year, 1, 1);
    match new_year.weekday() {
        Weekday::Saturday => {},
        Weekday::Sunday => {
            days.push(ymd(year, 1, 2));
        },
        _ => {
            days.push(new_year);
        },
    }
    days.push(nth_weekday(year, 1, Weekday::Monday, 3));
    days.push(nth_weekday(year, 2, Weekday::Monday, 3));
    days.push(good_friday(year));
    days.push(last_weekday(year, 5, Weekday::Monday));
    if year >= 2022 {
        proof {
            lemma_inner_day(civil(year as int, 6, 19));
        }
        days.push(observed(ymd(year, 6, 19)));
    }
    proof {
        lemma_inner_day(civil(year as int, 7, 4));
        lemma_inner_day(civil(year as int, 12, 25));
    }
    days.push(observed(ymd(year, 7, 4)));
    days.push(nth_weekday(year, 9, Weekday::Monday, 1));
    days.push(nth_weekday(year, 11, Weekday::Thursday, 4));
    days.push(observed(ymd(year, 12, 25)));
    days
}

/// A date that is not the first or the last of its year has a date on either side.
proof fn lemma_inner_day(c: Civil)
    requires
        is_date(c),
        c.month > 1,
        c.month < 12 || c.day < 31,
    ensures
        FIRST_DAY < day_number(c) < LAST_DAY,
{
    lemma_order(civil(FIRST_YEAR as int, 1, 1), c);
    lemma_order(c, civil(LAST_YEAR as int, 12, 31));
}

/// The day on which a fixed-date holiday is kept: the Friday before if it lands on a
/// Saturday, the Monday after if it lands on a Sunday.
pub fn observed(date: Date) -> (r: Date)
    requires
        weekday_number(date@) == 6 ==> FIRST_DAY < day_number(date@),
        weekday_number(date@) == 0 ==> day_number(date@) < LAST_DAY,
    ensures
        is_date(r@),
        day_number(r@) == observed_number(day_number(date@)),
{
    match date.weekday() {
        Weekday::Saturday => match date.previous_day() {
            Some(d) => d,
            None => unreached(),
        },
        Weekday::Sunday => match date.next_day() {
            Some(d) => d,
            None => unreached(),
        },
        _ => date,
    }
}

/// Good Friday: two days before Easter Sunday.
pub fn good_friday(year: i32) -> (r: Date)
    requires
        FIRST_YEAR <= year <= LAST_YEAR,
        year_known(year as int),
    ensures
        is_date(r@),
        day_number(r@) == day_number(easter(year as int)) - 2,
{
    let sunday = easter_sunday(year);
    proof {
        lemma_order(civil(FIRST_YEAR as int, 1, 1), sunday@);
        lemma_order(civil(FIRST_YEAR as int, 1, 31), sunday@);
    }
    let saturday = match sunday.previous_day() {
        Some(d) => d,
        None => unreached(),
    };
    match saturday.previous_day() {
        Some(d) => d,
        None => unreached(),
    }
}

/// Easter Sunday for `year`, by the anonymous Gregorian algorithm.
pub fn easter_sunday(year: i32) -> (r: Date)
    requires
        FIRST_YEAR <= year <= LAST_YEAR,
        year_known(year as int),
    ensures
        r@ == easter(year as int),
        is_date(r@),
        r@.month >= 2,
{
    let n: i32 = computus_number(year);
    let (month, day) = divided(n, 31);
    ymd(year, month as u8, day as u8 + 1)
}

/// Whether the calendar of holidays is known for `year`.
pub fn knows_year(year: i32) -> (r: bool)
    requires
        FIRST_YEAR <= year <= LAST_YEAR,
    ensures
        r == year_known(year as int),
{
    let n: i32 = computus_number(year);
    let (month, day) = divided(n, 31);
    Date::from_calendar_date(year, month as u8, day as u8 + 1).is_some()
}

/// Division that drops the fraction, and what is left.
fn divided(a: i32, b: i32) -> (r: (i32, i32))
    requires
        0 < b < 1000,
        -100_000 <= a <= 100_000,
    ensures
        r.0 == quotient(a as int, b as int),
        r.1 == remainder(a as int, b as int),
        a == b * r.0 + r.1,
        -b < r.1 < b,
        a >= 0 ==> r.0 >= 0 && r.1 >= 0,
        a <= 0 ==> r.0 <= 0 && r.1 <= 0,
{
    proof {
        reveal(quotient);
        reveal(remainder);
        let n = if a >= 0 { a as int } else { -(a as int) };
        lemma_fundamental_div_mod(n, b as int);
        lemma_div_is_ordered(0, n, b as int);
        assert(b * (-(n / (b as int))) == -(b * (n / (b as int)))) by (nonlinear_arith);
    }
    (a / b, a % b)
}

fn computus_number(year: i32) -> (r: i32)
    requires
        FIRST_YEAR <= year <= LAST_YEAR,
    ensures
        r == computus(year as int),
        79 <= r <= 300,
{
    let (_, a) = divided(year, 19);
    let (b, c) = divided(year, 100);
    let (d, e) = divided(b, 4);
    let (f, _) = divided(b + 8, 25);
    let (g, _) = divided(b - f + 1, 3);
    let (_, h) = divided(19 * a + b - d - g + 15, 30);
    let (i, k) = divided(c, 4);
    let (_, l) = divided(32 + 2 * e + 2 * i - h - k, 7);
    let (m, _) = divided(a + 11 * h + 22 * l, 451);
    proof {
        reveal(computus);
    }
    h + l - 7 * m + 114
}

/// The last `weekday` of `month` in `year`, such as the last Monday of May.
pub fn last_weekday(year: i32, month: u8, weekday: Weekday) -> (r: Date)
    requires
        FIRST_YEAR <= year <= LAST_YEAR,
        1 <= month <= 12,
    ensures
        is_date(r@),
        day_number(r@) == last_number(year as int, month as int, weekday@),
        r@.year == year,
        r@.month == month,
{
    proof {
        reveal(last_number);
    }
    let length: u8 = days_in_month(year, month);
    let ghost last = civil(year as int, month as int, length as int);
    let mut date = ymd(year, month, length);
    while date.weekday() != weekday
        invariant
            FIRST_YEAR <= year <= LAST_YEAR,
            1 <= month <= 12,
            length == month_length(year as int, month as int),
            last == civil(year as int, month as int, length as int),
            is_date(date@),
            date@.year == year,
            date@.month == month,
            day_number(last) - (weekday_number(last) - weekday@) % 7 <= day_number(date@)
                <= day_number(last),
        decreases date@.day,
    {
        let ghost before = civil(year as int, month as int, date@.day - 1);
        proof {
            assert(date@.day == length - (day_number(last) - day_number(date@)));
            assert(date@.day > 1);
            lemma_order(before, date@);
        }
        date = match date.previous_day() {
            Some(d) => d,
            None => unreached(),
        };
        proof {
            lemma_order(before, date@);
        }
    }
    date
}

/// The `n`-th `weekday` (from 1) of `month` in `year`, such as the second Sunday of March.
pub fn nth_weekday(year: i32, month: u8, weekday: Weekday, n: u8) -> (r: Date)
    requires
        FIRST_YEAR <= year <= LAST_YEAR,
        1 <= month <= 12,
        1 <= n,
        nth_day(year as int, month as int, weekday@, n as int) <= month_length(
            year as int,
            month as int,
        ),
    ensures
        is_date(r@),
        r@.year == year,
        r@.month == month,
        day_number(r@) == nth_number(year as int, month as int, weekday@, n as int),
        weekday_number(r@) == weekday@,
        7 * (n - 1) < r@.day <= 7 * n,
{
    proof {
        reveal(nth_number);
    }
    let first = ymd(year, month, 1);
    let shift: u8 = (7 + weekday.number_days_from_sunday()
        - first.weekday().number_days_from_sunday()) % 7;
    ymd(year, month, 1 + shift + (n - 1) * 7)
}

/// A date from year, month and day.
pub fn ymd(year: i32, month: u8, day: u8) -> (r: Date)
    requires
        is_date(civil(year as int, month as int, day as int)),
    ensures
        r@ == civil(year as int, month as int, day as int),
        is_date(r@),
{
    match Date::from_calendar_date(year, month, day) {
        Some(d) => d,
        None => unreached(),
    }
}

proof fn lemma_divided(a: int, b: int)
    requires
        a >= 0,
        b > 0,
    ensures
        quotient(a, b) == a / b,
        remainder(a, b) == a % b,
        a == b * (a / b) + a % b,
        0 <= a % b < b,
        a / b >= 0,
{
    reveal(quotient);
    reveal(remainder);
    lemma_fundamental_div_mod(a, b);
    lemma_div_is_ordered(0, a, b);
}

/// The century `4 d + e`, the year of the century `4 i + k`, and how the algorithm's number
/// comes from them up to multiples of seven.
proof fn lemma_computus(year: int) -> (r: (int, int, int, int, int))
    requires
        0 <= year <= LAST_YEAR,
    ensures
        ({
            let (d, e, i, k, q) = r;
            &&& year == 100 * (4 * d + e) + 4 * i + k
            &&& d >= 0 && 0 <= e < 4 && i >= 0 && 0 <= k < 4 && 4 * i + k < 100
            &&& computus(year) == 146 + 2 * e + 2 * i - k - 7 * q
        }),
        114 <= computus(year) <= 148,
{
    reveal(computus);
    let a = year % 19;
    lemma_divided(year, 19);
    let b = year / 100;
    let c = year % 100;
    lemma_divided(year, 100);
    let d = b / 4;
    let e = b % 4;
    lemma_divided(b, 4);
    let f = (b + 8) / 25;
    lemma_divided(b + 8, 25);
    let g = (b - f + 1) / 3;
    lemma_divided(b - f + 1, 3);
    let x = 19 * a + b - d - g + 15;
    let h = x % 30;
    lemma_divided(x, 30);
    let i = c / 4;
    let k = c % 4;
    lemma_divided(c, 4);
    let s = 32 + 2 * e + 2 * i - h - k;
    let l = s % 7;
    lemma_divided(s, 7);
    let m = (a + 11 * h + 22 * l) / 451;
    lemma_divided(a + 11 * h + 22 * l, 451);
    (d, e, i, k, s / 7 + m)
}

/// The first of March counted in years.
proof fn lemma_march(year: int, d: int, e: int, i: int, k: int)
    requires
        year == 100 * (4 * d + e) + 4 * i + k,
        d >= 0,
        0 <= e < 4,
        i >= 0,
        0 <= k < 4,
        4 * i + k < 100,
    ensures
        day_number(civil(year, 3, 1)) == 365 * year - 305 + 24 * (4 * d + e) + i + d,
{
    reveal(days_before_year);
    reveal(days_before_month);
    assert(year / 4 == 25 * (4 * d + e) + i);
    assert(year / 100 == 4 * d + e);
    assert(year / 400 == d);
    assert(day_number(civil(year, 3, 1)) == 365 * year - 305 + year / 4 - year / 100 + year
        / 400);
}

/// Easter Sunday is a Sunday from 22 March to 25 April, so Good Friday is a Friday.
pub proof fn law_easter_is_a_spring_sunday(year: int)
    requires
        0 <= year <= LAST_YEAR,
    ensures
        year_known(year),
        weekday_number(easter(year)) == 0,
        day_number(civil(year, 3, 22)) <= day_number(easter(year)) <= day_number(
            civil(year, 4, 25),
        ),
        (day_number(easter(year)) - 2) % 7 == 5,
{
    let (d, e, i, k, q) = lemma_computus(year);
    lemma_march(year, d, e, i, k);
    let n = computus(year);
    lemma_divided(n, 31);
    let march = day_number(civil(year, 3, 1));
    assert(day_number(civil(year, 4, 1)) == march + 31) by {
        reveal(days_before_month);
    }
    assert(day_number(easter(year)) == march + n - 93);
    assert(day_number(easter(year)) == 7 * (20871 * d + 5218 * e + 209 * i + 52 * k - 36 - q));
}

proof fn lemma_parts(a: Seq<int>, b: Seq<int>, c: Seq<int>, d: Seq<int>, n: int)
    requires
        (a + b + c + d).contains(n),
    ensures
        a.contains(n) || b.contains(n) || c.contains(n) || d.contains(n),
{
    let s = a + b + c + d;
    let i = choose|i: int| 0 <= i < s.len() && s[i] == n;
    if i < a.len() {
        assert(a[i] == n);
    } else if i < a.len() + b.len() {
        assert(b[i - a.len()] == n);
    } else if i < a.len() + b.len() + c.len() {
        assert(c[i - a.len() - b.len()] == n);
    } else {
        assert(d[i - a.len() - b.len() - c.len()] == n);
    }
}

/// The holidays of a year one by one.
proof fn lemma_holidays(year: int, n: int)
    requires
        holiday_numbers(year).contains(n),
    ensures
        ({
            ||| n == observed_number(day_number(civil(year, 1, 1)))
            ||| n == nth_number(year, 1, 1, 3)
            ||| n == nth_number(year, 2, 1, 3)
            ||| n == day_number(easter(year)) - 2
            ||| n == last_number(year, 5, 1)
            ||| n == observed_number(day_number(civil(year, 6, 19)))
            ||| n == observed_number(day_number(civil(year, 7, 4)))
            ||| n == nth_number(year, 9, 1, 1)
            ||| n == nth_number(year, 11, 4, 4)
            ||| n == observed_number(day_number(civil(year, 12, 25)))
        }),
{
    let new_year = day_number(civil(year, 1, 1));
    let a = if new_year % 7 == 6 {
        Seq::empty()
    } else {
        seq![observed_number(new_year)]
    };
    let b = seq![
        nth_number(year, 1, 1, 3),
        nth_number(year, 2, 1, 3),
        day_number(easter(year)) - 2,
        last_number(year, 5, 1),
    ];
    let c = if year >= 2022 {
        seq![observed_number(day_number(civil(year, 6, 19)))]
    } else {
        Seq::empty()
    };
    let d = seq![
        observed_number(day_number(civil(year, 7, 4))),
        nth_number(year, 9, 1, 1),
        nth_number(year, 11, 4, 4),
        observed_number(day_number(civil(year, 12, 25))),
    ];
    lemma_parts(a, b, c, d, n);
}

/// The holidays that can fall on a Tuesday or a Wednesday are the four with a fixed date.
proof fn lemma_midweek_holiday(c: Civil)
    requires
        is_date(c),
        c.year >= 0,
        2 <= weekday_number(c) <= 3,
        !is_open(c),
    ensures
        c == civil(c.year, 1, 1) || c == civil(c.year, 6, 19) || c == civil(c.year, 7, 4) || c
            == civil(c.year, 12, 25),
{
    let y = c.year;
    law_easter_is_a_spring_sunday(y);
    lemma_holidays(y, day_number(c));
    lemma_nth(y, 1, 1, 3);
    lemma_nth(y, 2, 1, 3);
    lemma_last(y, 5, 1);
    lemma_nth(y, 9, 1, 1);
    lemma_nth(y, 11, 4, 4);
    lemma_order(c, civil(y, 1, 1));
    lemma_order(c, civil(y, 6, 19));
    lemma_order(c, civil(y, 7, 4));
    lemma_order(c, civil(y, 12, 25));
}

/// Every week has a trading day: of a Tuesday and the Wednesday after it, one is open.
pub proof fn law_every_week_trades(tuesday: Civil, wednesday: Civil)
    requires
        is_date(tuesday),
        is_date(wednesday),
        tuesday.year >= 0,
        weekday_number(tuesday) == 2,
        day_number(wednesday) == day_number(tuesday) + 1,
    ensures
        is_open(tuesday) || is_open(wednesday),
{
    lemma_order(tuesday, wednesday);
    if !is_open(tuesday) && !is_open(wednesday) {
        lemma_midweek_holiday(tuesday);
        lemma_midweek_holiday(wednesday);
        lemma_day_after(tuesday);
        lemma_order(day_after(tuesday), wednesday);
    }
}

/// However late in a local day a rerun comes, also after midnight UTC, its trading date is that
/// of the day which the clock of the market shows.
pub proof fn law_a_local_day_has_one_trading_date(market: Market, now: Timestamp, day: int)
    requires
        day_start(day) <= (match market {
            Market::UsEquity => eastern_shown(now),
            Market::KrEquity => shown(now, 9),
        }) < day_start(day + 1),
    ensures
        session_day(market, now) == day,
{
}

/// Korea time knows no daylight saving: moving an instant by whole days moves its trading
/// date by as many.
pub proof fn law_korea_keeps_its_offset(now: Timestamp, later: Timestamp, days: int)
    requires
        later.unix_nanos == now.unix_nanos + days * NANOS_PER_DAY,
    ensures
        session_day(Market::KrEquity, later) == session_day(Market::KrEquity, now) + days,
{
}

/// The US Eastern offset changes at exactly two instants of a year: to -4 at 07:00 UTC on the
/// second Sunday of March, back to -5 at 06:00 UTC on the first Sunday of November.
pub proof fn law_daylight_saving_switches(now: Timestamp, today: Civil)
    requires
        is_date(today),
        day_number(today) == day_at(now.unix_nanos as int),
    ensures
        eastern_hours(now) == if day_start(spring(today.year)) + 7 * NANOS_PER_HOUR
            <= now.unix_nanos < day_start(fall(today.year)) + 6 * NANOS_PER_HOUR {
            -4int
        } else {
            -5int
        },
{
    let t = now.unix_nanos as int;
    assert forall|year: int| in_summer_of(t, year) implies year == today.year by {
        lemma_summer_is_within(t, year, today);
    }
    if day_start(spring(today.year)) + 7 * NANOS_PER_HOUR <= t < day_start(fall(today.year)) + 6
        * NANOS_PER_HOUR {
        assert(in_summer_of(t, today.year));
    }
}

/// The `n`-th given weekday of a month is the date of that month and weekday within its `n`-th
/// seven days, and no other date is.
pub proof fn law_the_nth_weekday_of_a_month(c: Civil, year: int, month: int, weekday: int, n: int)
    requires
        is_date(c),
        FIRST_YEAR <= year <= LAST_YEAR,
        1 <= month <= 12,
        0 <= weekday < 7,
        1 <= n <= 4,
    ensures
        day_number(c) == nth_number(year, month, weekday, n) <==> c.year == year && c.month == month
            && weekday_number(c) == weekday && 7 * (n - 1) < c.day <= 7 * n,
{
    lemma_nth(year, month, weekday, n);
    let first = civil(year, month, 1);
    let found = civil(year, month, nth_day(year, month, weekday, n));
    assert(day_number(found) == nth_number(year, month, weekday, n));
    lemma_order(c, found);
    if c.year == year && c.month == month && weekday_number(c) == weekday && 7 * (n - 1) < c.day
        <= 7 * n {
        assert(day_number(c) == day_number(first) + c.day - 1);
        let a = day_number(c);
        let b = nth_number(year, month, weekday, n);
        assert(-7 < a - b < 7);
        assert(a % 7 == b % 7);
    }
}

/// The last given weekday of a month is the date of that month and weekday within its last seven
/// days, and no other date is.
pub proof fn law_the_last_weekday_of_a_month(c: Civil, year: int, month: int, weekday: int)
    requires
        is_date(c),
        FIRST_YEAR <= year <= LAST_YEAR,
        1 <= month <= 12,
        0 <= weekday < 7,
    ensures
        day_number(c) == last_number(year, month, weekday) <==> c.year == year && c.month == month
            && weekday_number(c) == weekday && c.day > month_length(year, month) - 7,
{
    lemma_last(year, month, weekday);
    let last = civil(year, month, month_length(year, month));
    let back = day_number(last) - last_number(year, month, weekday);
    let found = civil(year, month, month_length(year, month) - back);
    assert(day_number(found) == last_number(year, month, weekday));
    lemma_order(c, found);
    if c.year == year && c.month == month && weekday_number(c) == weekday && c.day > month_length(
        year,
        month,
    ) - 7 {
        assert(day_number(c) == day_number(last) - (month_length(year, month) - c.day));
        let a = day_number(c);
        let b = last_number(year, month, weekday);
        assert(-7 < a - b < 7);
        assert(a % 7 == b % 7);
    }
}

/// Whether a date is the day on which a holiday of a fixed date is kept: that date itself on a
/// weekday, the Friday before it on a Saturday, the Monday after it on a Sunday.
pub open spec fn keeps(c: Civil, month: int, day: int) -> bool {
    c.month == month && ((c.day == day && 1 <= weekday_number(c) <= 5) || (c.day == day - 1
        && weekday_number(c) == 5) || (c.day == day + 1 && weekday_number(c) == 1))
}

proof fn lemma_kept(c: Civil, month: int, day: int)
    requires
        is_date(c),
        1 <= month <= 12,
        2 <= day < month_length(c.year, month),
    ensures
        day_number(c) == observed_number(day_number(civil(c.year, month, day))) <==> keeps(
            c,
            month,
            day,
        ),
{
    let on = civil(c.year, month, day);
    let before = civil(c.year, month, day - 1);
    let after = civil(c.year, month, day + 1);
    lemma_order(c, on);
    lemma_order(c, before);
    lemma_order(c, after);
    assert(day_number(before) == day_number(on) - 1);
    assert(day_number(after) == day_number(on) + 1);
}

/// The holidays of a year one by one, and each of them.
proof fn lemma_holiday_list(year: int, n: int)
    ensures
        holiday_numbers(year).contains(n) <==> ({
            ||| day_number(civil(year, 1, 1)) % 7 != 6 && n == observed_number(
                day_number(civil(year, 1, 1)),
            )
            ||| n == nth_number(year, 1, 1, 3)
            ||| n == nth_number(year, 2, 1, 3)
            ||| n == day_number(easter(year)) - 2
            ||| n == last_number(year, 5, 1)
            ||| year >= 2022 && n == observed_number(day_number(civil(year, 6, 19)))
            ||| n == observed_number(day_number(civil(year, 7, 4)))
            ||| n == nth_number(year, 9, 1, 1)
            ||| n == nth_number(year, 11, 4, 4)
            ||| n == observed_number(day_number(civil(year, 12, 25)))
        }),
{
    let s = holiday_numbers(year);
    let x: int = if day_number(civil(year, 1, 1)) % 7 == 6 {
        0
    } else {
        1
    };
    let y: int = if year >= 2022 {
        1
    } else {
        0
    };
    assert(s.len() == 8 + x + y);
    assert(x == 1 ==> s[0] == observed_number(day_number(civil(year, 1, 1))));
    assert(s[x] == nth_number(year, 1, 1, 3));
    assert(s[x + 1] == nth_number(year, 2, 1, 3));
    assert(s[x + 2] == day_number(easter(year)) - 2);
    assert(s[x + 3] == last_number(year, 5, 1));
    assert(y == 1 ==> s[x + 4] == observed_number(day_number(civil(year, 6, 19))));
    assert(s[x + y + 4] == observed_number(day_number(civil(year, 7, 4))));
    assert(s[x + y + 5] == nth_number(year, 9, 1, 1));
    assert(s[x + y + 6] == nth_number(year, 11, 4, 4));
    assert(s[x + y + 7] == observed_number(day_number(civil(year, 12, 25))));
    if s.contains(n) {
        let i = choose|i: int| 0 <= i < s.len() && s[i] == n;
        assert(i == 0 && x == 1 || i == x || i == x + 1 || i == x + 2 || i == x + 3 || (y == 1 && i
            == x + 4) || i == x + y + 4 || i == x + y + 5 || i == x + y + 6 || i == x + y + 7);
    }
}

/// The exchange is open on every weekday but these: New Year's Day, kept on the Monday where it
/// is a Sunday and not at all where it is a Saturday; the third Mondays of January and February;
/// the Friday before Easter; the last Monday of May; from 2022 on the nineteenth of June; the
/// fourth of July; the first Monday of September; the fourth Thursday of November; and the
/// twenty-fifth of December.
#[verifier::spinoff_prover]
pub proof fn law_the_exchange_closes_on_its_holidays(c: Civil)
    requires
        is_date(c),
    ensures
        is_open(c) <==> 1 <= weekday_number(c) <= 5 && !({
            ||| c.month == 1 && c.day == 1
            ||| c.month == 1 && c.day == 2 && weekday_number(c) == 1
            ||| c.month == 1 && weekday_number(c) == 1 && 15 <= c.day <= 21
            ||| c.month == 2 && weekday_number(c) == 1 && 15 <= c.day <= 21
            ||| day_number(c) + 2 == day_number(easter(c.year))
            ||| c.month == 5 && weekday_number(c) == 1 && 25 <= c.day <= 31
            ||| c.year >= 2022 && keeps(c, 6, 19)
            ||| keeps(c, 7, 4)
            ||| c.month == 9 && weekday_number(c) == 1 && 1 <= c.day <= 7
            ||| c.month == 11 && weekday_number(c) == 4 && 22 <= c.day <= 28
            ||| keeps(c, 12, 25)
        }),
{
    let year = c.year;
    lemma_holiday_list(year, day_number(c));
    law_the_nth_weekday_of_a_month(c, year, 1, 1, 3);
    law_the_nth_weekday_of_a_month(c, year, 2, 1, 3);
    law_the_last_weekday_of_a_month(c, year, 5, 1);
    law_the_nth_weekday_of_a_month(c, year, 9, 1, 1);
    law_the_nth_weekday_of_a_month(c, year, 11, 4, 4);
    lemma_kept(c, 6, 19);
    lemma_kept(c, 7, 4);
    lemma_kept(c, 12, 25);
    let new_year = civil(year, 1, 1);
    let second = civil(year, 1, 2);
    lemma_order(c, new_year);
    lemma_order(c, second);
    assert(day_number(second) == day_number(new_year) + 1);
}

/// Daylight saving starts on the second Sunday of March and ends on the first of November.
pub proof fn law_daylight_saving_starts_and_ends_on_sundays(c: Civil, year: int)
    requires
        is_date(c),
        FIRST_YEAR <= year <= LAST_YEAR,
    ensures
        day_number(c) == spring(year) <==> c.year == year && c.month == 3 && weekday_number(c) == 0
            && 8 <= c.day <= 14,
        day_number(c) == fall(year) <==> c.year == year && c.month == 11 && weekday_number(c) == 0
            && 1 <= c.day <= 7,
{
    law_the_nth_weekday_of_a_month(c, year, 3, 0, 2);
    law_the_nth_weekday_of_a_month(c, year, 11, 0, 1);
}

/// At the instant found for a date and a time from three in the morning on, a US Eastern clock
/// shows that date and time.
pub proof fn law_the_clock_shows_the_time_asked_for(date: Civil, time: Time, at: Timestamp)
    requires
        is_date(date),
        time.nanos < 86_400_000_000_000,
        time.nanos >= 10_800_000_000_000,
        at.unix_nanos == eastern_instant(date, time),
    ensures
        day_at(eastern_shown(at)) == day_number(date),
        eastern_shown(at) % 86_400_000_000_000int == time.nanos,
{
    let t = at.unix_nanos as int;
    let n = day_number(date);
    let year = date.year;
    lemma_nth(year, 3, 0, 2);
    lemma_nth(year, 11, 0, 1);
    if eastern_hours_on(date) == -4 {
        assert(in_summer_of(t, year));
    } else {
        assert forall|y: int| !in_summer_of(t, y) by {
            if in_summer_of(t, y) {
                lemma_nth(y, 3, 0, 2);
                lemma_nth(y, 11, 0, 1);
                assert(spring(y) <= n + 1 && n <= fall(y));
                let march = civil(y, 3, 1);
                let november = civil(y, 11, 7);
                assert(spring(y) >= day_number(march) + 7);
                assert(fall(y) <= day_number(november));
                lemma_order(date, march);
                lemma_order(november, date);
                assert(y == year);
            }
        }
    }
    assert(eastern_hours(at) == eastern_hours_on(date));
    assert(eastern_shown(at) == day_start(n) + time.nanos);
}

/// The Korean trading date is that of a clock nine hours ahead of UTC.
pub proof fn law_korea_is_nine_hours_ahead(now: Timestamp)
    ensures
        session_day(Market::KrEquity, now) == (now.unix_nanos + 32_400_000_000_000)
            / 86_400_000_000_000int + 719_163,
{
}

/// Easter is the first Sunday after the paschal full moon: that of the lunar cycle of nineteen
/// years, corrected by century, from the twenty-first of March to the eighteenth of April.
pub proof fn law_easter_follows_the_paschal_moon(year: int)
    requires
        0 <= year <= LAST_YEAR,
    ensures
        ({
            let a = year % 19;
            let k = year / 100;
            let moon = (19 * a + 15 + k - k / 4 - (8 * k + 13) / 25) % 30;
            let days = if moon == 29 || (moon == 28 && a > 10) {
                moon - 1
            } else {
                moon
            };
            let full = day_number(civil(year, 3, 21)) + days;
            &&& weekday_number(easter(year)) == 0
            &&& full < day_number(easter(year)) <= full + 7
        }),
{
    law_easter_is_a_spring_sunday(year);
    reveal(computus);
    let a = year % 19;
    lemma_divided(year, 19);
    let b = year / 100;
    let c = year % 100;
    lemma_divided(year, 100);
    let d = b / 4;
    let e = b % 4;
    lemma_divided(b, 4);
    let f = (b + 8) / 25;
    lemma_divided(b + 8, 25);
    let g = (b - f + 1) / 3;
    lemma_divided(b - f + 1, 3);
    assert(g == (8 * b + 13) / 25);
    let x = 19 * a + b - d - g + 15;
    let h = x % 30;
    lemma_divided(x, 30);
    let i = c / 4;
    let k = c % 4;
    lemma_divided(c, 4);
    let s = 32 + 2 * e + 2 * i - h - k;
    let l = s % 7;
    lemma_divided(s, 7);
    let m = (a + 11 * h + 22 * l) / 451;
    lemma_divided(a + 11 * h + 22 * l, 451);
    let n = computus(year);
    assert(n == h + l - 7 * m + 114);
    assert(0 <= m <= 1);
    assert(m == 1 <==> l == 6 && (h == 29 || (h == 28 && a > 10)));
    lemma_divided(n, 31);
    let march = day_number(civil(year, 3, 1));
    assert(day_number(civil(year, 4, 1)) == march + 31) by {
        reveal(days_before_month);
    }
    assert(114 <= n <= 148);
    assert(day_number(easter(year)) == march + n - 93);
}

/// From the year 0 on it is known of every date if it is a trading day, and of a weekend always.
pub proof fn law_trading_days_are_known(date: Civil)
    requires
        is_date(date),
    ensures
        date.year >= 0 ==> day_told(date),
        weekday_number(date) == 0 || weekday_number(date) == 6 ==> day_told(date) && !is_open(date),
{
    if date.year >= 0 {
        law_easter_is_a_spring_sunday(date.year);
    }
}

} // verus!

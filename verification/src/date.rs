//! Calendar dates, times of day, and instants.
//!
//! The civil calendar is the proleptic Gregorian one over the years -9999 to 9999, as the
//! `time` crate has it; the calls into that crate stand at the end of this file.

use crate::text::{fixed_digits, law_fixed_widths_keep_the_last_digits, read_in_base_ten};
use vstd::prelude::*;

verus! {

/// The first and the last year of the calendar.
pub const FIRST_YEAR: i32 = -9999;

pub const LAST_YEAR: i32 = 9999;

/// The number of the first and of the last day of the calendar.
pub const FIRST_DAY: i32 = -3_652_424;

pub const LAST_DAY: i32 = 3_652_059;

/// The number of 1970-01-01.
pub const EPOCH_DAY: i32 = 719_163;

pub const NANOS_PER_SECOND: i128 = 1_000_000_000;

pub const NANOS_PER_HOUR: i128 = 3_600_000_000_000;

pub const NANOS_PER_DAY: i128 = 86_400_000_000_000;

/// A year, month and day.
pub struct Civil {
    pub year: int,
    pub month: int,
    pub day: int,
}

pub open spec fn civil(year: int, month: int, day: int) -> Civil {
    Civil { year, month, day }
}

pub open spec fn is_leap(year: int) -> bool {
    year % 4 == 0 && (year % 100 != 0 || year % 400 == 0)
}

/// The number of days in a month.
pub open spec fn month_length(year: int, month: int) -> int {
    if month == 2 {
        if is_leap(year) {
            29
        } else {
            28
        }
    } else if month == 4 || month == 6 || month == 9 || month == 11 {
        30
    } else {
        31
    }
}

/// Whether a year, month and day are a date of the calendar.
pub open spec fn is_date(c: Civil) -> bool {
    &&& FIRST_YEAR <= c.year <= LAST_YEAR
    &&& 1 <= c.month <= 12
    &&& 1 <= c.day <= month_length(c.year, c.month)
}

/// The number of days from 0001-01-01 to the first day of a year.
#[verifier::opaque]
pub open spec fn days_before_year(year: int) -> int {
    365 * (year - 1) + (year - 1) / 4 - (year - 1) / 100 + (year - 1) / 400
}

/// The number of days of a year before a month.
#[verifier::opaque]
pub open spec fn days_before_month(year: int, month: int) -> int {
    let leap: int = if is_leap(year) { 1 } else { 0 };
    if month <= 1 {
        0
    } else if month == 2 {
        31
    } else if month == 3 {
        59 + leap
    } else if month == 4 {
        90 + leap
    } else if month == 5 {
        120 + leap
    } else if month == 6 {
        151 + leap
    } else if month == 7 {
        181 + leap
    } else if month == 8 {
        212 + leap
    } else if month == 9 {
        243 + leap
    } else if month == 10 {
        273 + leap
    } else if month == 11 {
        304 + leap
    } else {
        334 + leap
    }
}

/// Dates counted in days; 0001-01-01 is day one.
pub open spec fn day_number(c: Civil) -> int {
    days_before_year(c.year) + days_before_month(c.year, c.month) + c.day
}

/// The day of the week, counted from Sunday as zero.
pub open spec fn weekday_number(c: Civil) -> int {
    day_number(c) % 7
}

/// The order of dates: by year, then month, then day.
pub open spec fn earlier(a: Civil, b: Civil) -> bool {
    a.year < b.year || (a.year == b.year && (a.month < b.month || (a.month == b.month && a.day
        < b.day)))
}

/// Dates are ordered as their day numbers, and every date has its own.
pub proof fn lemma_order(a: Civil, b: Civil)
    requires
        is_date(a),
        is_date(b),
    ensures
        earlier(a, b) <==> day_number(a) < day_number(b),
        a == b <==> day_number(a) == day_number(b),
        FIRST_DAY <= day_number(a) <= LAST_DAY,
        FIRST_DAY <= day_number(b) <= LAST_DAY,
{
    if earlier(a, b) {
        lemma_earlier(a, b);
    } else if earlier(b, a) {
        lemma_earlier(b, a);
    }
    reveal(days_before_year);
    reveal(days_before_month);
    lemma_year(FIRST_YEAR as int, a.year);
    lemma_year(a.year, LAST_YEAR as int);
    lemma_year(FIRST_YEAR as int, b.year);
    lemma_year(b.year, LAST_YEAR as int);
}

proof fn lemma_year(a: int, b: int)
    requires
        a <= b,
    ensures
        days_before_year(a) <= days_before_year(b),
        a < b ==> days_before_year(a) + 365 + (if is_leap(a) {
            1int
        } else {
            0int
        }) <= days_before_year(b),
{
    reveal(days_before_year);
}

proof fn lemma_earlier(a: Civil, b: Civil)
    requires
        is_date(a),
        is_date(b),
        earlier(a, b),
    ensures
        day_number(a) < day_number(b),
{
    reveal(days_before_month);
    lemma_year(a.year, b.year);
}

/// The date after a date.
pub open spec fn day_after(c: Civil) -> Civil {
    if c.day < month_length(c.year, c.month) {
        civil(c.year, c.month, c.day + 1)
    } else if c.month < 12 {
        civil(c.year, c.month + 1, 1)
    } else {
        civil(c.year + 1, 1, 1)
    }
}

/// Dates follow each other in steps of one day.
pub proof fn lemma_day_after(c: Civil)
    requires
        is_date(c),
    ensures
        day_number(day_after(c)) == day_number(c) + 1,
        day_number(c) < LAST_DAY ==> is_date(day_after(c)),
{
    reveal(days_before_month);
    reveal(days_before_year);
}

/// Every day number up to the last has its date.
pub proof fn lemma_date_later(c: Civil, days: nat) -> (r: Civil)
    requires
        is_date(c),
        day_number(c) + days <= LAST_DAY,
    ensures
        is_date(r),
        day_number(r) == day_number(c) + days,
    decreases days,
{
    if days == 0 {
        c
    } else {
        lemma_day_after(c);
        lemma_date_later(day_after(c), (days - 1) as nat)
    }
}

/// A day of the week.
#[derive(Clone, Copy, Debug, PartialEq, Eq, Structural)]
pub enum Weekday {
    Sunday,
    Monday,
    Tuesday,
    Wednesday,
    Thursday,
    Friday,
    Saturday,
}

impl View for Weekday {
    type V = int;

    open spec fn view(&self) -> int {
        match self {
            Weekday::Sunday => 0,
            Weekday::Monday => 1,
            Weekday::Tuesday => 2,
            Weekday::Wednesday => 3,
            Weekday::Thursday => 4,
            Weekday::Friday => 5,
            Weekday::Saturday => 6,
        }
    }
}

impl Weekday {
    /// The number of days since Sunday.
    pub fn number_days_from_sunday(self) -> (r: u8)
        ensures
            r == self@,
    {
        match self {
            Weekday::Sunday => 0,
            Weekday::Monday => 1,
            Weekday::Tuesday => 2,
            Weekday::Wednesday => 3,
            Weekday::Thursday => 4,
            Weekday::Friday => 5,
            Weekday::Saturday => 6,
        }
    }
}

/// A calendar date.
#[derive(Clone, Copy, Debug)]
pub struct Date {
    year: i32,
    month: u8,
    day: u8,
}

impl View for Date {
    type V = Civil;

    closed spec fn view(&self) -> Civil {
        civil(self.year as int, self.month as int, self.day as int)
    }
}

impl Date {
    #[verifier::type_invariant]
    spec fn inv(self) -> bool {
        is_date(self@)
    }

    /// The date of a year, month and day, or `None` where there is no such date.
    pub fn from_calendar_date(year: i32, month: u8, day: u8) -> (r: Option<Date>)
        ensures
            r is Some <==> is_date(civil(year as int, month as int, day as int)),
            r matches Some(d) ==> d@ == civil(year as int, month as int, day as int),
    {
        if outside_is_date(year, month, day) {
            Some(Date { year, month, day })
        } else {
            None
        }
    }

    /// The year.
    pub fn year(&self) -> (r: i32)
        ensures
            r == self@.year,
            is_date(self@),
    {
        proof {
            use_type_invariant(self);
        }
        self.year
    }

    /// The month, from 1.
    pub fn month(&self) -> (r: u8)
        ensures
            r == self@.month,
            is_date(self@),
    {
        proof {
            use_type_invariant(self);
        }
        self.month
    }

    /// The day of the month, from 1.
    pub fn day(&self) -> (r: u8)
        ensures
            r == self@.day,
            is_date(self@),
    {
        proof {
            use_type_invariant(self);
        }
        self.day
    }

    /// The day of the week.
    pub fn weekday(&self) -> (r: Weekday)
        ensures
            r@ == weekday_number(self@),
            is_date(self@),
    {
        proof {
            use_type_invariant(self);
        }
        match outside_weekday(self.year, self.month, self.day) {
            0 => Weekday::Sunday,
            1 => Weekday::Monday,
            2 => Weekday::Tuesday,
            3 => Weekday::Wednesday,
            4 => Weekday::Thursday,
            5 => Weekday::Friday,
            _ => Weekday::Saturday,
        }
    }

    /// The next day, or `None` after the last day of the calendar.
    pub fn next_day(&self) -> (r: Option<Date>)
        ensures
            is_date(self@),
            r is Some <==> day_number(self@) < LAST_DAY,
            r matches Some(d) ==> is_date(d@) && day_number(d@) == day_number(self@) + 1,
    {
        proof {
            use_type_invariant(self);
        }
        match outside_next_day(self.year, self.month, self.day) {
            Some((year, month, day)) => Some(Date { year, month, day }),
            None => None,
        }
    }

    /// The day before, or `None` on the first day of the calendar.
    pub fn previous_day(&self) -> (r: Option<Date>)
        ensures
            is_date(self@),
            r is Some <==> day_number(self@) > FIRST_DAY,
            r matches Some(d) ==> is_date(d@) && day_number(d@) == day_number(self@) - 1,
    {
        proof {
            use_type_invariant(self);
        }
        match outside_previous_day(self.year, self.month, self.day) {
            Some((year, month, day)) => Some(Date { year, month, day }),
            None => None,
        }
    }

    /// The date a number of days before, but not before the first day of the calendar.
    pub fn days_before(&self, days: u16) -> (r: Date)
        ensures
            is_date(self@),
            is_date(r@),
            day_number(r@) == if day_number(self@) - days < FIRST_DAY {
                FIRST_DAY as int
            } else {
                day_number(self@) - days
            },
    {
        proof {
            use_type_invariant(self);
        }
        let (year, month, day) = outside_days_before(self.year, self.month, self.day, days);
        Date { year, month, day }
    }

    /// Whether this date comes before another.
    pub fn is_before(&self, other: &Date) -> (r: bool)
        ensures
            r == earlier(self@, other@),
            is_date(self@),
            is_date(other@),
            r == (day_number(self@) < day_number(other@)),
    {
        proof {
            use_type_invariant(self);
            use_type_invariant(other);
            lemma_order(self@, other@);
        }
        self.year < other.year || (self.year == other.year && (self.month < other.month || (
        self.month == other.month && self.day < other.day)))
    }

    /// The date in writing, such as `2026-06-25`.
    pub fn to_text(&self) -> (r: String)
        ensures
            r@ == date_text(self@),
            is_date(self@),
    {
        proof {
            use_type_invariant(self);
        }
        outside_date_text(self.year, self.month, self.day)
    }

    /// Read a date such as `2026-06-25`, or say what is wrong with the text. A date in writing
    /// reads as itself.
    pub fn parse(text: &str) -> (r: Result<Date, String>)
        ensures
            reads_written_date(text@, date_parsed(text@)),
            match r {
                Ok(d) => is_date(d@) && date_parsed(text@) == Ok::<(i32, u8, u8), Seq<char>>(
                    (d@.year as i32, d@.month as u8, d@.day as u8),
                ),
                Err(e) => date_parsed(text@) == Err::<(i32, u8, u8), Seq<char>>(e@),
            },
    {
        match outside_parse_date(text) {
            Ok((year, month, day)) => Ok(Date { year, month, day }),
            Err(e) => Err(e),
        }
    }
}

impl vstd::std_specs::cmp::PartialEqSpecImpl for Date {
    open spec fn obeys_eq_spec() -> bool {
        true
    }

    open spec fn eq_spec(&self, other: &Date) -> bool {
        self@ == other@
    }
}

impl PartialEq for Date {
    fn eq(&self, other: &Date) -> (r: bool) {
        self.year == other.year && self.month == other.month && self.day == other.day
    }
}

impl Eq for Date {

}

/// A date in writing: the year in at least four digits, the month and the day in two.
pub open spec fn date_text(c: Civil) -> Seq<char> {
    let sign = if c.year < 0 { seq!['-'] } else { Seq::empty() };
    let year = if c.year < 0 { (-c.year) as nat } else { c.year as nat };
    sign + fixed_digits(year, 4) + seq!['-'] + fixed_digits(c.month as nat, 2) + seq!['-']
        + fixed_digits(c.day as nat, 2)
}

/// A time of day, to the nanosecond.
#[derive(Clone, Copy, Debug, PartialEq, Eq, Structural)]
pub struct Time {
    pub nanos: u64,
}

impl Time {
    /// Whether this is a time of day.
    pub open spec fn wf(self) -> bool {
        self.nanos < NANOS_PER_DAY
    }

    /// Whether this is a time of day.
    pub fn is_valid(&self) -> (r: bool)
        ensures
            r == self.wf(),
    {
        self.nanos < 86_400_000_000_000
    }

    /// The time of day of an hour and minute.
    pub fn from_hm(hour: u8, minute: u8) -> (r: Time)
        requires
            hour < 24,
            minute < 60,
        ensures
            r.wf(),
            r.nanos == (hour * 60 + minute) * 60 * NANOS_PER_SECOND,
            r.nanos == hour * 3_600_000_000_000 + minute * 60_000_000_000,
    {
        Time { nanos: (hour as u64 * 60 + minute as u64) * 60 * 1_000_000_000 }
    }
}

/// An instant, in nanoseconds since 1970-01-01 00:00 UTC.
#[derive(Clone, Copy, Debug, PartialEq, Eq, Structural)]
pub struct Timestamp {
    pub unix_nanos: i128,
}

/// The nanoseconds from 1970-01-01 00:00 to the start of a day.
pub open spec fn day_start(day: int) -> int {
    (day - EPOCH_DAY) * NANOS_PER_DAY
}

/// The number of the day that a count of nanoseconds falls on.
pub open spec fn day_at(nanos: int) -> int {
    nanos / NANOS_PER_DAY as int + EPOCH_DAY
}

/// Whether a count of nanoseconds falls on a day of the calendar.
pub open spec fn in_calendar(nanos: int) -> bool {
    FIRST_DAY <= day_at(nanos) <= LAST_DAY
}

/// The instant shown on a clock `hours` ahead of UTC.
pub open spec fn shown(now: Timestamp, hours: int) -> int {
    now.unix_nanos + hours * NANOS_PER_HOUR
}

/// Whether a count of nanoseconds falls on a day of the calendar.
pub fn covers(nanos: i128) -> (r: bool)
    ensures
        r == in_calendar(nanos as int),
{
    let first: i128 = (FIRST_DAY as i128 - EPOCH_DAY as i128) * NANOS_PER_DAY;
    let end: i128 = (LAST_DAY as i128 + 1 - EPOCH_DAY as i128) * NANOS_PER_DAY;
    first <= nanos && nanos < end
}

impl Timestamp {
    /// The date and time of day on a clock `hours` ahead of UTC.
    pub fn local(self, hours: i8) -> (r: (Date, Time))
        requires
            -12 <= hours <= 12,
            in_calendar(self.unix_nanos as int),
            in_calendar(shown(self, hours as int)),
        ensures
            is_date(r.0@),
            day_number(r.0@) == day_at(shown(self, hours as int)),
            r.1.wf(),
            r.1.nanos == shown(self, hours as int) % NANOS_PER_DAY as int,
    {
        let ((year, month, day), (hour, minute, second, nano)) = outside_local(
            self.unix_nanos,
            hours,
        );
        let nanos: u64 = ((hour as u64 * 60 + minute as u64) * 60 + second as u64) * 1_000_000_000
            + nano as u64;
        let date = Date { year, month, day };
        proof {
            let t = shown(self, hours as int);
            assert(t == day_start(day_number(date@)) + nanos);
            assert(t / NANOS_PER_DAY as int == day_number(date@) - EPOCH_DAY && t
                % NANOS_PER_DAY as int == nanos) by (nonlinear_arith)
                requires
                    t == (day_number(date@) - EPOCH_DAY) * 86_400_000_000_000 + nanos,
                    0 <= nanos < 86_400_000_000_000,
                    NANOS_PER_DAY as int == 86_400_000_000_000,
            ;
        }
        (date, Time { nanos })
    }

    /// The instant at which a clock `hours` ahead of UTC shows a date and time of day.
    pub fn from_local(date: Date, time: Time, hours: i8) -> (r: Timestamp)
        requires
            -12 <= hours <= 12,
            time.wf(),
        ensures
            is_date(date@),
            shown(r, hours as int) == day_start(day_number(date@)) + time.nanos,
    {
        proof {
            use_type_invariant(&date);
        }
        let seconds: u64 = time.nanos / 1_000_000_000;
        let nano: u32 = (time.nanos % 1_000_000_000) as u32;
        let hour: u8 = (seconds / 3600) as u8;
        let minute: u8 = ((seconds / 60) % 60) as u8;
        let second: u8 = (seconds % 60) as u8;
        Timestamp {
            unix_nanos: outside_instant(
                (date.year, date.month, date.day),
                (hour, minute, second, nano),
                hours,
            ),
        }
    }
}

/// The nanoseconds since midnight of an hour, minute, second and nanosecond.
pub open spec fn clock_nanos(t: (u8, u8, u8, u32)) -> int {
    ((t.0 * 60 + t.1) * 60 + t.2) * NANOS_PER_SECOND + t.3
}

/// Whether an hour, minute, second and nanosecond are a time of day.
pub open spec fn is_clock(t: (u8, u8, u8, u32)) -> bool {
    t.0 < 24 && t.1 < 60 && t.2 < 60 && t.3 < NANOS_PER_SECOND
}

/// A year, month and day as a date.
pub open spec fn civil_of(d: (i32, u8, u8)) -> Civil {
    civil(d.0 as int, d.1 as int, d.2 as int)
}

/// `Date::from_calendar_date`. Claimed: it succeeds for the dates of the proleptic
/// Gregorian calendar in the years -9999 to 9999.
#[verifier::external_body]
fn outside_is_date(year: i32, month: u8, day: u8) -> (r: bool)
    ensures
        r == is_date(civil(year as int, month as int, day as int)),
{
    match time::Month::try_from(month) {
        Ok(month) => time::Date::from_calendar_date(year, month, day).is_ok(),
        Err(_) => false,
    }
}

/// `Date::weekday`. Claimed: days of the week follow each other, and 0001-01-01 is a Monday.
#[verifier::external_body]
fn outside_weekday(year: i32, month: u8, day: u8) -> (r: u8)
    requires
        is_date(civil(year as int, month as int, day as int)),
    ensures
        r == weekday_number(civil(year as int, month as int, day as int)),
{
    let month = time::Month::try_from(month).unwrap();
    let date = time::Date::from_calendar_date(year, month, day).unwrap();
    date.weekday().number_days_from_sunday()
}

/// `Date::next_day`. Claimed: the day with the next number, `None` after the last day.
#[verifier::external_body]
fn outside_next_day(year: i32, month: u8, day: u8) -> (r: Option<(i32, u8, u8)>)
    requires
        is_date(civil(year as int, month as int, day as int)),
    ensures
        r is Some <==> day_number(civil(year as int, month as int, day as int)) < LAST_DAY,
        r is Some ==> is_date(civil_of(r->0)),
        r is Some ==> day_number(civil_of(r->0)) == day_number(
            civil(year as int, month as int, day as int),
        ) + 1,
{
    let month = time::Month::try_from(month).unwrap();
    let date = time::Date::from_calendar_date(year, month, day).unwrap();
    date.next_day().map(|d| (d.year(), u8::from(d.month()), d.day()))
}

/// `Date::previous_day`. Claimed: the day with the number before, `None` on the first day.
#[verifier::external_body]
fn outside_previous_day(year: i32, month: u8, day: u8) -> (r: Option<(i32, u8, u8)>)
    requires
        is_date(civil(year as int, month as int, day as int)),
    ensures
        r is Some <==> day_number(civil(year as int, month as int, day as int)) > FIRST_DAY,
        r is Some ==> is_date(civil_of(r->0)),
        r is Some ==> day_number(civil_of(r->0)) == day_number(
            civil(year as int, month as int, day as int),
        ) - 1,
{
    let month = time::Month::try_from(month).unwrap();
    let date = time::Date::from_calendar_date(year, month, day).unwrap();
    date.previous_day().map(|d| (d.year(), u8::from(d.month()), d.day()))
}

/// `Date::saturating_sub` of a whole number of days. Claimed: the day with the number that
/// much lower, the first day of the calendar where there is none.
#[verifier::external_body]
fn outside_days_before(year: i32, month: u8, day: u8, days: u16) -> (r: (i32, u8, u8))
    requires
        is_date(civil(year as int, month as int, day as int)),
    ensures
        is_date(civil_of(r)),
        day_number(civil_of(r)) == if day_number(civil(year as int, month as int, day as int))
            - days < FIRST_DAY {
            FIRST_DAY as int
        } else {
            day_number(civil(year as int, month as int, day as int)) - days
        },
{
    let month = time::Month::try_from(month).unwrap();
    let date = time::Date::from_calendar_date(year, month, day).unwrap();
    let d = date.saturating_sub(time::Duration::days(days as i64));
    (d.year(), u8::from(d.month()), d.day())
}

/// `Month::length`. Claimed: the number of days in a month of the Gregorian calendar.
#[verifier::external_body]
pub(crate) fn days_in_month(year: i32, month: u8) -> (r: u8)
    requires
        1 <= month <= 12,
        FIRST_YEAR <= year <= LAST_YEAR,
    ensures
        r == month_length(year as int, month as int),
{
    time::Month::try_from(month).unwrap().length(year)
}

/// `Date::to_string`. Claimed: year, month and day in digits with dashes between, the year
/// with a sign where it is negative.
#[verifier::external_body]
fn outside_date_text(year: i32, month: u8, day: u8) -> (r: String)
    requires
        is_date(civil(year as int, month as int, day as int)),
    ensures
        r@ == date_text(civil(year as int, month as int, day as int)),
{
    let month = time::Month::try_from(month).unwrap();
    time::Date::from_calendar_date(year, month, day).unwrap().to_string()
}

/// What a text reads as: a year, month and day, or what is wrong with it.
pub uninterp spec fn date_parsed(text: Seq<char>) -> Result<(i32, u8, u8), Seq<char>>;

/// A result of reading with the wording of its error.
pub open spec fn date_view(r: Result<(i32, u8, u8), String>) -> Result<(i32, u8, u8), Seq<char>> {
    match r {
        Ok(d) => Ok(d),
        Err(e) => Err(e@),
    }
}

/// Whether a text that is some date in writing reads as that date.
pub open spec fn reads_written_date(
    text: Seq<char>,
    read: Result<(i32, u8, u8), Seq<char>>,
) -> bool {
    forall|c: Civil|
        is_date(c) && text == #[trigger] date_text(c) ==> read is Ok && civil_of(read->Ok_0) == c
}

/// `Date::parse` with the format `[year]-[month]-[day]`. Claimed: the result, the wording of
/// an error included, is a function of the text; what it reads is a date; a date in writing is
/// read as that date. Not claimed: what other texts read as.
#[verifier::external_body]
fn outside_parse_date(text: &str) -> (r: Result<(i32, u8, u8), String>)
    ensures
        reads_written_date(text@, date_view(r)),
        match r {
            Ok(d) => is_date(civil_of(d)) && date_parsed(text@) == Ok::<
                (i32, u8, u8),
                Seq<char>,
            >(d),
            Err(e) => date_parsed(text@) == Err::<(i32, u8, u8), Seq<char>>(e@),
        },
{
    let format = time::format_description::parse_borrowed::<2>("[year]-[month]-[day]").unwrap();
    match time::Date::parse(text, &format) {
        Ok(d) => Ok((d.year(), u8::from(d.month()), d.day())),
        Err(e) => Err(e.to_string()),
    }
}

/// `OffsetDateTime::to_offset`. Claimed: the date and time of day that together count the
/// instant's nanoseconds on a clock `hours` ahead of UTC.
#[verifier::external_body]
fn outside_local(nanos: i128, hours: i8) -> (r: ((i32, u8, u8), (u8, u8, u8, u32)))
    requires
        -12 <= hours <= 12,
        in_calendar(nanos as int),
        in_calendar(nanos + hours * NANOS_PER_HOUR),
    ensures
        is_date(civil_of(r.0)),
        is_clock(r.1),
        day_start(day_number(civil_of(r.0))) + clock_nanos(r.1) == nanos + hours * NANOS_PER_HOUR,
{
    let utc = time::OffsetDateTime::from_unix_timestamp_nanos(nanos).unwrap();
    let at = utc.to_offset(time::UtcOffset::from_hms(hours, 0, 0).unwrap());
    ((at.year(), u8::from(at.month()), at.day()), at.to_hms_nano())
}

/// `PrimitiveDateTime::assume_offset` and `OffsetDateTime::unix_timestamp_nanos`. Claimed:
/// the instant whose nanoseconds a clock `hours` ahead of UTC counts as that date and time.
#[verifier::external_body]
fn outside_instant(date: (i32, u8, u8), clock: (u8, u8, u8, u32), hours: i8) -> (r: i128)
    requires
        -12 <= hours <= 12,
        is_date(civil_of(date)),
        is_clock(clock),
    ensures
        r + hours * NANOS_PER_HOUR == day_start(day_number(civil_of(date))) + clock_nanos(clock),
{
    let month = time::Month::try_from(date.1).unwrap();
    let day = time::Date::from_calendar_date(date.0, month, date.2).unwrap();
    let at = day.with_hms_nano(clock.0, clock.1, clock.2, clock.3).unwrap();
    let offset = time::UtcOffset::from_hms(hours, 0, 0).unwrap();
    at.assume_offset(offset).unix_timestamp_nanos()
}

/// The first of January of the year 1 is day one, a Monday, and that of 1970 is day 719,163, a
/// Thursday. From any date the count goes up by one to the next day of its month, to the first
/// of the next month, or to that of the next year.
pub proof fn law_days_are_counted_one_by_one(c: Civil)
    requires
        is_date(c),
    ensures
        day_number(civil(1, 1, 1)) == 1,
        weekday_number(civil(1, 1, 1)) == 1,
        day_number(civil(1970, 1, 1)) == 719_163,
        weekday_number(civil(1970, 1, 1)) == 4,
        c.day < month_length(c.year, c.month) ==> day_number(civil(c.year, c.month, c.day + 1))
            == day_number(c) + 1,
        c.day == month_length(c.year, c.month) && c.month < 12 ==> day_number(
            civil(c.year, c.month + 1, 1),
        ) == day_number(c) + 1,
        c.day == month_length(c.year, c.month) && c.month == 12 ==> day_number(
            civil(c.year + 1, 1, 1),
        ) == day_number(c) + 1,
        weekday_number(day_after(c)) == (weekday_number(c) + 1) % 7,
{
    lemma_anchors();
    lemma_day_after(c);
}

proof fn lemma_anchors()
    ensures
        day_number(civil(1, 1, 1)) == 1,
        day_number(civil(1970, 1, 1)) == 719_163,
{
    reveal(days_before_month);
    reveal(days_before_year);
}

/// April, June, September and November have 30 days, February 28 or in a leap year 29, and the
/// others 31. Every fourth year is a leap year, but of the centuries only every fourth one.
pub proof fn law_months_have_their_lengths(year: int, month: int)
    ensures
        month == 4 || month == 6 || month == 9 || month == 11 <==> month_length(year, month) == 30,
        month == 2 <==> month_length(year, month) < 30,
        month_length(year, 2) == if year % 400 == 0 || (year % 4 == 0 && year % 100 != 0) {
            29int
        } else {
            28int
        },
        month != 2 && month != 4 && month != 6 && month != 9 && month != 11 ==> month_length(
            year,
            month,
        ) == 31,
{
}

/// A day starts at midnight and is 86,400 seconds long, the day of the epoch at instant zero. A
/// clock ahead of UTC by some hours shows as many times 3,600 seconds more.
pub proof fn law_clocks_show_days_of_86400_seconds(day: int, nanos: int, now: Timestamp, hours: int)
    ensures
        day_start(719_163) == 0,
        day_start(day + 1) == day_start(day) + 86_400_000_000_000,
        day_at(nanos) == day <==> day_start(day) <= nanos < day_start(day) + 86_400_000_000_000,
        shown(now, hours) == now.unix_nanos + hours * 3_600_000_000_000,
{
}

/// A date is written as its year, month and day with dashes between them, a minus in front of a
/// year below zero: each part reads as its number, the year in four digits, the others in two.
pub proof fn law_dates_are_written_year_first(c: Civil)
    requires
        is_date(c),
    ensures
        c.year >= 0 ==> ({
            let s = date_text(c);
            &&& s.len() == 10
            &&& s[4] == '-' && s[7] == '-'
            &&& read_in_base_ten(s.subrange(0, 4)) == c.year
            &&& read_in_base_ten(s.subrange(5, 7)) == c.month
            &&& read_in_base_ten(s.subrange(8, 10)) == c.day
        }),
        c.year < 0 ==> date_text(c) == seq!['-'] + date_text(civil(-c.year, c.month, c.day)),
{
    let year = if c.year < 0 { (-c.year) as nat } else { c.year as nat };
    law_fixed_widths_keep_the_last_digits(year, 4);
    law_fixed_widths_keep_the_last_digits(c.month as nat, 2);
    law_fixed_widths_keep_the_last_digits(c.day as nat, 2);
    assert(vstd::arithmetic::power::pow(10, 4) == 10000 && vstd::arithmetic::power::pow(10, 2)
        == 100) by {
        reveal_with_fuel(vstd::arithmetic::power::pow, 5);
    }
    let s = date_text(c);
    if c.year >= 0 {
        assert(s.subrange(0, 4) =~= fixed_digits(year, 4));
        assert(s.subrange(5, 7) =~= fixed_digits(c.month as nat, 2));
        assert(s.subrange(8, 10) =~= fixed_digits(c.day as nat, 2));
    } else {
        assert(s =~= seq!['-'] + date_text(civil(-c.year, c.month, c.day)));
    }
}

} // verus!

//! Scheduling vocabulary: when the engine wakes a strategy.

use crate::calendar::{
    day_told, eastern, eastern_at, eastern_hours, eastern_hours_on, eastern_instant,
    eastern_shown, fall, in_summer_of, is_open, is_trading_day, knows_market,
    law_easter_is_a_spring_sunday, law_every_week_trades, lemma_nth, market_knows, spring,
    tells_day, Market,
};
use crate::date::{
    civil, day_at, day_number, day_start, is_date, lemma_date_later, lemma_order, Civil, Time,
    Timestamp, LAST_DAY, NANOS_PER_DAY, NANOS_PER_HOUR,
};
use vstd::prelude::*;

verus! {

/// A daily fire at a fixed US Eastern wall-clock time, on every trading day.
#[derive(Clone, Copy, Debug, PartialEq, Eq, Structural)]
pub struct Schedule {
    /// Local US Eastern time of day to fire at.
    pub at_eastern: Time,
}

/// The default batch cadence: 09:00 Eastern.
pub open spec fn daily_schedule() -> Schedule {
    Schedule { at_eastern: Time { nanos: (9 * NANOS_PER_HOUR) as u64 } }
}

impl Schedule {
    /// The default batch cadence: 09:00 Eastern, half an hour before the open.
    pub fn daily_before_open() -> (r: Schedule)
        ensures
            r.at_eastern.wf(),
            r == daily_schedule(),
    {
        Schedule { at_eastern: Time::from_hm(9, 0) }
    }
}

/// When the engine should call a strategy.
#[derive(Clone, Copy, Debug, PartialEq, Eq, Structural)]
pub enum Trigger {
    /// Fire on a wall-clock schedule.
    Schedule(Schedule),
}

/// Whether a schedule fires on a date after an instant.
pub open spec fn fires_after(schedule: Schedule, day: Civil, now: Timestamp) -> bool {
    is_date(day) && is_open(day) && eastern_instant(day, schedule.at_eastern) > now.unix_nanos
}

/// Whether it is known of every date from a day to another one if it is a trading day.
pub open spec fn told_through(first: int, last: int) -> bool {
    forall|day: Civil| is_date(day) && first <= #[trigger] day_number(day) <= last ==> day_told(day)
}

/// Whether the calendar holds a fire after an instant, and knows the trading days up to it.
pub open spec fn fire_comes(schedule: Schedule, now: Timestamp) -> bool {
    &&& market_knows(Market::UsEquity, now)
    &&& exists|day: Civil| #[trigger]
        fires_after(schedule, day, now) && day_at(eastern_shown(now)) <= day_number(day)
            && told_through(day_at(eastern_shown(now)), day_number(day))
}

/// Whether an instant is the next fire of a schedule: it is one, after now, and the soonest.
pub open spec fn is_next_fire(schedule: Schedule, now: Timestamp, fire: Timestamp) -> bool {
    &&& fire.unix_nanos > now.unix_nanos
    &&& exists|day: Civil| #[trigger]
        fires_after(schedule, day, now) && fire.unix_nanos == eastern_instant(
            day,
            schedule.at_eastern,
        )
    &&& forall|day: Civil| #[trigger]
        fires_after(schedule, day, now) ==> fire.unix_nanos <= eastern_instant(
            day,
            schedule.at_eastern,
        )
}

/// A schedule has one next fire.
pub proof fn law_next_fire_is_unique(
    schedule: Schedule,
    now: Timestamp,
    one: Timestamp,
    other: Timestamp,
)
    requires
        is_next_fire(schedule, now, one),
        is_next_fire(schedule, now, other),
    ensures
        one == other,
{
}

/// The next instant strictly after `now` at which `schedule` fires: its Eastern time on the
/// soonest trading day not already past.
pub fn next_fire(schedule: &Schedule, now: Timestamp) -> (r: Timestamp)
    requires
        schedule.at_eastern.wf(),
        fire_comes(*schedule, now),
    ensures
        is_next_fire(*schedule, now, r),
{
    let ghost today = day_at(eastern_shown(now));
    let (mut day, _) = eastern(now);
    loop
        invariant
            schedule.at_eastern.wf(),
            fire_comes(*schedule, now),
            today == day_at(eastern_shown(now)),
            is_date(day@),
            today <= day_number(day@),
            forall|d: Civil| #[trigger]
                fires_after(*schedule, d, now) && today <= day_number(d) ==> day_number(day@)
                    <= day_number(d),
        decreases LAST_DAY - day_number(day@),
    {
        let ghost first = choose|d: Civil| #[trigger]
            fires_after(*schedule, d, now) && today <= day_number(d) && told_through(
                today,
                day_number(d),
            );
        assert(day_number(day@) <= day_number(first));
        if is_trading_day(day) {
            let fire = eastern_at(day, schedule.at_eastern);
            if fire.unix_nanos > now.unix_nanos {
                assert(fires_after(*schedule, day@, now));
                assert forall|d: Civil| #[trigger] fires_after(*schedule, d, now) implies fire.unix_nanos
                    <= eastern_instant(d, schedule.at_eastern) by {
                    if day_number(d) < today {
                        lemma_past_day_has_fired(*schedule, d, now);
                    } else {
                        lemma_order(day@, d);
                    }
                }
                return fire;
            }
        }
        assert forall|d: Civil| #[trigger]
            fires_after(*schedule, d, now) && today <= day_number(d) implies day_number(day@)
            < day_number(d) by {
            lemma_order(day@, d);
        }
        proof {
            lemma_order(first, day@);
        }
        day = match day.next_day() {
            Some(d) => d,
            None => unreached(),
        };
    }
}

/// The next instant strictly after `now` at which `schedule` fires; `None` for a schedule that
/// is at no time of day, and where the calendar holds no fire or does not know the trading days
/// up to it.
pub fn try_next_fire(schedule: &Schedule, now: Timestamp) -> (r: Option<Timestamp>)
    ensures
        match r {
            Some(fire) => schedule.at_eastern.wf() && fire_comes(*schedule, now) && is_next_fire(
                *schedule,
                now,
                fire,
            ),
            None => !schedule.at_eastern.wf() || !fire_comes(*schedule, now),
        },
{
    if !schedule.at_eastern.is_valid() || !knows_market(Market::UsEquity, now) {
        return None;
    }
    let (today, _) = eastern(now);
    let ghost first = day_at(eastern_shown(now));
    let mut day = today;
    loop
        invariant
            schedule.at_eastern.wf(),
            market_knows(Market::UsEquity, now),
            first == day_at(eastern_shown(now)),
            told_through(first, day_number(day@) - 1),
            is_date(day@),
            first <= day_number(day@),
            forall|d: Civil| #[trigger]
                fires_after(*schedule, d, now) && first <= day_number(d) ==> day_number(day@)
                    <= day_number(d),
        decreases LAST_DAY - day_number(day@),
    {
        if !tells_day(day) {
            return None;
        }
        proof {
            assert forall|d: Civil|
                is_date(d) && first <= #[trigger] day_number(d) <= day_number(
                    day@,
                ) implies day_told(d) by {
                lemma_order(d, day@);
            }
        }
        if is_trading_day(day) {
            let fire = eastern_at(day, schedule.at_eastern);
            if fire.unix_nanos > now.unix_nanos {
                assert(fires_after(*schedule, day@, now));
                return Some(next_fire(schedule, now));
            }
        }
        proof {
            assert forall|d: Civil| #[trigger]
                fires_after(*schedule, d, now) && first <= day_number(d) implies day_number(day@)
                < day_number(d) by {
                lemma_order(day@, d);
            }
        }
        day = match day.next_day() {
            Some(d) => d,
            None => {
                proof {
                    assert forall|d: Civil| #[trigger]
                        fires_after(*schedule, d, now) implies day_number(d) < first by {
                        lemma_order(d, day@);
                    }
                }
                return None;
            },
        };
    }
}

/// On the days before today's Eastern date a schedule has fired already.
proof fn lemma_past_day_has_fired(schedule: Schedule, day: Civil, now: Timestamp)
    requires
        schedule.at_eastern.wf(),
        is_date(day),
        day_number(day) < day_at(eastern_shown(now)),
    ensures
        eastern_instant(day, schedule.at_eastern) <= now.unix_nanos,
{
    let t = now.unix_nanos as int;
    let today = day_at(eastern_shown(now));
    let shown = eastern_shown(now);
    assert(day_start(today) <= shown < day_start(today + 1));
    if eastern_hours(now) == -4 && eastern_hours_on(day) == -5 {
        let year = choose|year: int| in_summer_of(t, year);
        assert(in_summer_of(t, year));
        lemma_nth(year, 3, 0, 2);
        lemma_nth(year, 11, 0, 1);
        assert(spring(year) <= today <= fall(year));
        if day_number(day) == today - 1 && today > spring(year) {
            lemma_order(civil(year, 3, 1), day);
            lemma_order(day, civil(year, 11, 30));
            lemma_order(day, civil(year, 3, 1));
            lemma_order(civil(year, 11, 30), day);
            assert(day.year == year);
        }
    }
}

/// From the year 0 on a fire always comes, as long as nine more days are in the calendar.
pub proof fn law_fire_comes(schedule: Schedule, now: Timestamp, today: Civil)
    requires
        schedule.at_eastern.wf(),
        market_knows(Market::UsEquity, now),
        is_date(today),
        today.year >= 0,
        day_number(today) == day_at(eastern_shown(now)),
        day_number(today) + 9 <= LAST_DAY,
    ensures
        fire_comes(schedule, now),
{
    let n = day_number(today);
    // The first Tuesday that is at least two days ahead.
    let ahead = 2 + (2 - (n + 2)) % 7;
    let tuesday = lemma_date_later(today, ahead as nat);
    let wednesday = lemma_date_later(today, (ahead + 1) as nat);
    lemma_order(today, tuesday);
    law_every_week_trades(tuesday, wednesday);
    let day = if is_open(tuesday) {
        tuesday
    } else {
        wednesday
    };
    assert(eastern_shown(now) < day_start(n + 1));
    assert(fires_after(schedule, day, now));
    assert forall|d: Civil| is_date(d) && n <= #[trigger] day_number(d) <= day_number(
        day,
    ) implies day_told(d) by {
        lemma_order(today, d);
        law_easter_is_a_spring_sunday(d.year);
    }
    assert(told_through(n, day_number(day)));
}

/// The NYSE regular-session close, in hours of US Eastern time. Catch-up fires are bounded to
/// before this: an order placed after the close cannot fill today and could carry into the
/// next session, where it would count against that day's tranche as well.
pub const REGULAR_CLOSE_HOUR: u8 = 16;

/// Whether a schedule is due when a US Eastern clock shows an instant: on a trading day, from
/// the scheduled time to the close.
pub open spec fn due_at(schedule: Schedule, today: Civil, nanos_of_day: int) -> bool {
    is_open(today) && schedule.at_eastern.nanos <= nanos_of_day < REGULAR_CLOSE_HOUR
        * NANOS_PER_HOUR
}

/// Whether `schedule` is due at `now`: today (Eastern) is a trading day and the current
/// Eastern time is within the trading window.
pub fn is_due(schedule: &Schedule, now: Timestamp) -> (r: bool)
    requires
        market_knows(Market::UsEquity, now),
        forall|day: Civil|
            is_date(day) && #[trigger] day_number(day) == day_at(eastern_shown(now)) ==> day_told(
                day,
            ),
    ensures
        forall|today: Civil|
            is_date(today) && #[trigger] day_number(today) == day_at(eastern_shown(now)) ==> r
                == due_at(*schedule, today, eastern_shown(now) % NANOS_PER_DAY as int),
{
    let (date, time) = eastern(now);
    proof {
        assert forall|today: Civil|
            is_date(today) && #[trigger] day_number(today) == day_at(
                eastern_shown(now),
            ) implies today == date@ by {
            lemma_order(today, date@);
        }
    }
    let close = Time::from_hm(REGULAR_CLOSE_HOUR, 0);
    is_trading_day(date) && time.nanos >= schedule.at_eastern.nanos && time.nanos < close.nanos
}

/// The daily fire is at nine in the morning: 32,400 seconds into the day.
pub proof fn law_the_daily_fire_is_at_nine()
    ensures
        daily_schedule().at_eastern.nanos == 32_400_000_000_000u64,
        daily_schedule().at_eastern.wf(),
{
}

/// A schedule is due on trading days alone, from its time on, and until the session closes at
/// four in the afternoon, 57,600 seconds into the day.
pub proof fn law_due_from_its_time_to_the_close(
    schedule: Schedule,
    today: Civil,
    nanos_of_day: int,
)
    ensures
        due_at(schedule, today, nanos_of_day) <==> is_open(today) && nanos_of_day
            >= schedule.at_eastern.nanos && nanos_of_day < 57_600_000_000_000int,
{
}

/// Every trading day has its fire: on an open day whose time is still to come, the next fire is
/// no later than that time.
pub proof fn law_no_open_day_is_skipped(
    schedule: Schedule,
    now: Timestamp,
    fire: Timestamp,
    day: Civil,
)
    requires
        is_next_fire(schedule, now, fire),
        is_date(day),
        is_open(day),
        eastern_instant(day, schedule.at_eastern) > now.unix_nanos,
    ensures
        now.unix_nanos < fire.unix_nanos <= eastern_instant(day, schedule.at_eastern),
{
    assert(fires_after(schedule, day, now));
}

/// A fire is at the schedule's time on an open day.
pub proof fn law_fires_fall_on_open_days(schedule: Schedule, now: Timestamp, fire: Timestamp)
    requires
        is_next_fire(schedule, now, fire),
    ensures
        exists|day: Civil|
            is_date(day) && #[trigger] is_open(day) && fire.unix_nanos == eastern_instant(
                day,
                schedule.at_eastern,
            ),
{
    let day = choose|day: Civil| #[trigger]
        fires_after(schedule, day, now) && fire.unix_nanos == eastern_instant(
            day,
            schedule.at_eastern,
        );
    assert(is_open(day));
}

} // verus!

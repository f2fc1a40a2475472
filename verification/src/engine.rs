//! The rules of the scheduler daemon: which jobs are due, how long to sleep until the next
//! one, and which configured positions it runs at all.

use crate::calendar::{
    day_told, eastern, eastern_shown, is_open, knows_market, market_knows, tells_day, Market,
};
use crate::date::{day_at, day_number, is_date, lemma_order, Civil, Timestamp, NANOS_PER_DAY};
use crate::ports::Strategy;
use crate::schedule::{
    daily_schedule, due_at, fire_comes, is_due, is_next_fire, next_fire, try_next_fire, Schedule,
    Trigger,
};
use crate::text::{join3, join5, same};
use vstd::prelude::*;

verus! {

/// Whether a schedule is due at an instant.
pub open spec fn due(schedule: Schedule, now: Timestamp) -> bool {
    exists|today: Civil|
        is_date(today) && #[trigger] day_number(today) == day_at(eastern_shown(now)) && due_at(
            schedule,
            today,
            eastern_shown(now) % NANOS_PER_DAY as int,
        )
}

/// Whether the calendar covers an instant, and it is known if its Eastern day is a trading day.
pub open spec fn day_known(now: Timestamp) -> bool {
    &&& market_knows(Market::UsEquity, now)
    &&& forall|day: Civil|
        is_date(day) && #[trigger] day_number(day) == day_at(eastern_shown(now)) ==> day_told(day)
}

/// The jobs whose schedules are due, in order. A daemon that starts mid-day catches up on
/// them; the order journal makes that safe.
pub fn due_jobs(schedules: &[Schedule], now: Timestamp) -> (r: Vec<usize>)
    requires
        day_known(now),
    ensures
        forall|i: int| 0 <= i < r@.len() ==> (#[trigger] r@[i]) < schedules@.len() && due(
            schedules@[r@[i] as int],
            now,
        ),
        forall|k: usize|
            k < schedules@.len() && due(#[trigger] schedules@[k as int], now) ==> r@.contains(k),
        forall|i: int, j: int|
            #![trigger r@[i], r@[j]]
            0 <= i < j < r@.len() ==> r@[i] < r@[j],
{
    let mut jobs: Vec<usize> = Vec::new();
    let mut i: usize = 0;
    while i < schedules.len()
        invariant
            i <= schedules.len(),
            day_known(now),
            forall|k: int| 0 <= k < jobs@.len() ==> (#[trigger] jobs@[k]) < i && due(
                schedules@[jobs@[k] as int],
                now,
            ),
            forall|k: usize|
                k < i && due(#[trigger] schedules@[k as int], now) ==> jobs@.contains(k),
            forall|a: int, b: int|
                #![trigger jobs@[a], jobs@[b]]
                0 <= a < b < jobs@.len() ==> jobs@[a] < jobs@[b],
        decreases schedules.len() - i,
    {
        let ghost before = jobs@;
        let is_due_now = due_now(&schedules[i], now);
        if is_due_now {
            jobs.push(i);
            assert(jobs@[before.len() as int] == i);
        }
        assert forall|k: usize|
            k < i + 1 && due(#[trigger] schedules@[k as int], now) implies jobs@.contains(k) by {
            if k < i {
                assert(before.contains(k));
                let at = choose|at: int| 0 <= at < before.len() && before[at] == k;
                assert(jobs@[at] == k);
            } else {
                assert(jobs@[before.len() as int] == k);
            }
        }
        i += 1;
    }
    jobs
}

/// Whether the calendar covers an instant, and it is known if its Eastern day is a trading day.
pub fn knows_day(now: Timestamp) -> (r: bool)
    ensures
        r == day_known(now),
{
    if !knows_market(Market::UsEquity, now) {
        return false;
    }
    let (today, _) = eastern(now);
    proof {
        assert forall|day: Civil|
            is_date(day) && #[trigger] day_number(day) == day_at(
                eastern_shown(now),
            ) implies day == today@ by {
            lemma_order(day, today@);
        }
    }
    tells_day(today)
}

/// The jobs whose schedules are due, in order; `None` on a day that the calendar does not
/// know.
pub fn try_due_jobs(schedules: &[Schedule], now: Timestamp) -> (r: Option<Vec<usize>>)
    ensures
        match r {
            Some(jobs) => {
                &&& day_known(now)
                &&& forall|i: int|
                    0 <= i < jobs@.len() ==> (#[trigger] jobs@[i]) < schedules@.len() && due(
                        schedules@[jobs@[i] as int],
                        now,
                    )
                &&& forall|k: usize|
                    k < schedules@.len() && due(#[trigger] schedules@[k as int], now)
                        ==> jobs@.contains(k)
                &&& forall|i: int, j: int|
                    #![trigger jobs@[i], jobs@[j]]
                    0 <= i < j < jobs@.len() ==> jobs@[i] < jobs@[j]
            },
            None => !day_known(now),
        },
{
    if knows_day(now) {
        Some(due_jobs(schedules, now))
    } else {
        None
    }
}

/// Whether a schedule is due at an instant.
pub fn due_now(schedule: &Schedule, now: Timestamp) -> (r: bool)
    requires
        day_known(now),
    ensures
        r == due(*schedule, now),
{
    let (today, _) = eastern(now);
    let r = is_due(schedule, now);
    assert(day_number(today@) == day_at(eastern_shown(now)));
    r
}

/// Whether there are schedules, and each of them has a next fire that the calendar knows.
pub open spec fn wakes_come(schedules: Seq<Schedule>, now: Timestamp) -> bool {
    &&& schedules.len() > 0
    &&& forall|i: int|
        0 <= i < schedules.len() ==> (#[trigger] schedules[i]).at_eastern.wf() && fire_comes(
            schedules[i],
            now,
        )
}

/// The soonest fire of all schedules after an instant.
pub fn next_wake(schedules: &[Schedule], now: Timestamp) -> (r: Timestamp)
    requires
        wakes_come(schedules@, now),
    ensures
        r.unix_nanos > now.unix_nanos,
        exists|i: int| 0 <= i < schedules@.len() && is_next_fire(#[trigger] schedules@[i], now, r),
        forall|i: int, fire: Timestamp|
            0 <= i < schedules@.len() && #[trigger] is_next_fire(schedules@[i], now, fire)
                ==> r.unix_nanos <= fire.unix_nanos,
{
    let mut soonest = next_fire(&schedules[0], now);
    let ghost mut chosen: int = 0;
    let mut i: usize = 1;
    assert forall|k: int, fire: Timestamp|
        0 <= k < 1 && #[trigger] is_next_fire(schedules@[k], now, fire) implies soonest.unix_nanos
        <= fire.unix_nanos by {
        crate::schedule::law_next_fire_is_unique(schedules@[0], now, soonest, fire);
    }
    while i < schedules.len()
        invariant
            1 <= i <= schedules.len(),
            0 <= chosen < i,
            is_next_fire(schedules@[chosen], now, soonest),
            forall|k: int|
                0 <= k < schedules@.len() ==> (#[trigger] schedules@[k]).at_eastern.wf()
                    && fire_comes(schedules@[k], now),
            forall|k: int, fire: Timestamp|
                0 <= k < i && #[trigger] is_next_fire(schedules@[k], now, fire)
                    ==> soonest.unix_nanos <= fire.unix_nanos,
        decreases schedules.len() - i,
    {
        let fire = next_fire(&schedules[i], now);
        let ghost before = soonest;
        if fire.unix_nanos < soonest.unix_nanos {
            soonest = fire;
            proof {
                chosen = i as int;
            }
        }
        assert forall|k: int, other: Timestamp|
            0 <= k < i + 1 && #[trigger] is_next_fire(
                schedules@[k],
                now,
                other,
            ) implies soonest.unix_nanos <= other.unix_nanos by {
            if k == i {
                crate::schedule::law_next_fire_is_unique(schedules@[k], now, fire, other);
            }
        }
        i += 1;
    }
    assert(is_next_fire(schedules@[chosen], now, soonest));
    soonest
}

/// The soonest fire of all schedules after an instant; `None` without schedules, and where one
/// of them has no next fire that the calendar knows.
pub fn try_next_wake(schedules: &[Schedule], now: Timestamp) -> (r: Option<Timestamp>)
    ensures
        match r {
            Some(wake) => {
                &&& wakes_come(schedules@, now)
                &&& wake.unix_nanos > now.unix_nanos
                &&& exists|i: int|
                    0 <= i < schedules@.len() && is_next_fire(#[trigger] schedules@[i], now, wake)
                &&& forall|i: int, fire: Timestamp|
                    0 <= i < schedules@.len() && #[trigger] is_next_fire(schedules@[i], now, fire)
                        ==> wake.unix_nanos <= fire.unix_nanos
            },
            None => !wakes_come(schedules@, now),
        },
{
    if schedules.len() == 0 {
        return None;
    }
    let mut i: usize = 0;
    while i < schedules.len()
        invariant
            i <= schedules.len(),
            forall|k: int|
                0 <= k < i ==> (#[trigger] schedules@[k]).at_eastern.wf() && fire_comes(
                    schedules@[k],
                    now,
                ),
        decreases schedules.len() - i,
    {
        if try_next_fire(&schedules[i], now).is_none() {
            assert(!fire_comes(schedules@[i as int], now) || !schedules@[i as int].at_eastern.wf());
            return None;
        }
        i += 1;
    }
    Some(next_wake(schedules, now))
}

/// The whole milliseconds from an instant to another, none if it is past, and no more than 64
/// bits hold.
pub open spec fn sleep_millis(next: Timestamp, now: Timestamp) -> int {
    let millis = (next.unix_nanos - now.unix_nanos) / 1_000_000;
    if next.unix_nanos <= now.unix_nanos {
        0
    } else if millis > u64::MAX {
        u64::MAX as int
    } else {
        millis
    }
}

/// The whole milliseconds to sleep from an instant to another, none if it is past.
pub fn wait_millis(next: Timestamp, now: Timestamp) -> (r: u64)
    ensures
        r == sleep_millis(next, now),
        r == if next.unix_nanos <= now.unix_nanos {
            0int
        } else if (next.unix_nanos - now.unix_nanos) / 1_000_000 > u64::MAX {
            u64::MAX as int
        } else {
            (next.unix_nanos - now.unix_nanos) / 1_000_000
        },
{
    if next.unix_nanos <= now.unix_nanos {
        return 0;
    }
    match next.unix_nanos.checked_sub(now.unix_nanos) {
        Some(nanos) => {
            let millis: i128 = nanos / 1_000_000;
            if millis > u64::MAX as i128 {
                u64::MAX
            } else {
                millis as u64
            }
        },
        None => u64::MAX,
    }
}

/// The market whose trading calendar applies to a broker: Korean brokers trade on Korean
/// sessions, everything else is taken as US equities.
pub open spec fn market_of_broker(broker: Seq<char>) -> Market {
    if broker == "kis-domestic"@ || broker == "toss"@ {
        Market::KrEquity
    } else {
        Market::UsEquity
    }
}

/// The market whose trading calendar applies to a position, by its configured broker.
pub fn position_market(broker: &str) -> (r: Market)
    ensures
        r == market_of_broker(broker@),
{
    if same(broker, "kis-domestic") || same(broker, "toss") {
        Market::KrEquity
    } else {
        Market::UsEquity
    }
}

/// Whether the daemon runs a position, or why not.
#[derive(Clone, Copy, Debug, PartialEq, Eq, Structural)]
pub enum JobPlan {
    Run,
    /// Its schedule is one of US Eastern time, which a Korean position cannot follow.
    SkipDomestic,
    /// Its broker cannot place orders.
    SkipReadOnly,
}

/// The remark that a position is skipped, `None` for one that is run.
pub open spec fn skip_text(plan: JobPlan, name: Seq<char>, broker: Seq<char>) -> Option<Seq<char>> {
    match plan {
        JobPlan::Run => None,
        JobPlan::SkipDomestic => Some(
            "skipping position '"@ + name
                + "': the `drip run` schedule is US-Eastern-only — a KRX position needs the KST schedule (#22 P4); place it with `drip tick` for now"@,
        ),
        JobPlan::SkipReadOnly => Some(
            "skipping position '"@ + name + "': broker '"@ + broker
                + "' cannot place orders (KIS only)"@,
        ),
    }
}

/// The remark that a position is skipped.
pub fn skip_remark(plan: JobPlan, name: &str, broker: &str) -> (r: Option<String>)
    ensures
        match r {
            Some(s) => skip_text(plan, name@, broker@) == Some(s@),
            None => skip_text(plan, name@, broker@) is None,
        },
{
    match plan {
        JobPlan::Run => None,
        JobPlan::SkipDomestic => Some(
            join3(
                "skipping position '",
                name,
                "': the `drip run` schedule is US-Eastern-only — a KRX position needs the KST schedule (#22 P4); place it with `drip tick` for now",
            ),
        ),
        JobPlan::SkipReadOnly => Some(
            join5(
                "skipping position '",
                name,
                "': broker '",
                broker,
                "' cannot place orders (KIS only)",
            ),
        ),
    }
}

/// The schedule of the first of some triggers, or the daily one.
pub open spec fn first_schedule(triggers: Seq<Trigger>) -> Schedule {
    if triggers.len() > 0 {
        match triggers[0] {
            Trigger::Schedule(s) => s,
        }
    } else {
        daily_schedule()
    }
}

/// The schedule of a strategy: that of its first trigger, or the daily one.
pub fn schedule_of<S: Strategy>(strategy: &S) -> (r: Schedule)
    ensures
        r == first_schedule(strategy.wakeups()),
        r.at_eastern.wf(),
{
    let triggers = strategy.triggers();
    if triggers.len() > 0 {
        match triggers[0] {
            Trigger::Schedule(s) => s,
        }
    } else {
        Schedule::daily_before_open()
    }
}

/// Domestic KIS and Toss keep Korean sessions; every other broker keeps those of the US.
pub proof fn law_korean_brokers_keep_korean_sessions(broker: Seq<char>)
    ensures
        market_of_broker(broker) == Market::KrEquity <==> broker == "kis-domestic"@ || broker
            == "toss"@,
        market_of_broker(broker) == Market::UsEquity <==> broker != "kis-domestic"@ && broker
            != "toss"@,
{
}

/// Whether a schedule is due is decided by the Eastern day and clock of the instant: the day is
/// open, and the clock is at or past the scheduled time and before four in the afternoon.
pub proof fn law_due_by_the_eastern_clock(schedule: Schedule, now: Timestamp, today: Civil)
    requires
        is_date(today),
        day_number(today) == day_at(eastern_shown(now)),
    ensures
        due(schedule, now) <==> is_open(today) && schedule.at_eastern.nanos <= eastern_shown(now)
            % 86_400_000_000_000int && eastern_shown(now) % 86_400_000_000_000int
            < 57_600_000_000_000int,
{
    if due(schedule, now) {
        let other = choose|other: Civil|
            is_date(other) && #[trigger] day_number(other) == day_at(eastern_shown(now)) && due_at(
                schedule,
                other,
                eastern_shown(now) % NANOS_PER_DAY as int,
            );
        lemma_order(other, today);
    }
}

/// A position that is run has no remark; one that is skipped has one that names it, and one for
/// its broker names that too.
pub proof fn law_skips_say_which_position_and_why(
    plan: JobPlan,
    name: Seq<char>,
    broker: Seq<char>,
)
    ensures
        skip_text(plan, name, broker) is None <==> plan == JobPlan::Run,
        skip_text(JobPlan::SkipDomestic, name, broker) == Some(
            "skipping position '"@ + name
                + "': the `drip run` schedule is US-Eastern-only — a KRX position needs the KST schedule (#22 P4); place it with `drip tick` for now"@,
        ),
        skip_text(JobPlan::SkipReadOnly, name, broker) == Some(
            "skipping position '"@ + name + "': broker '"@ + broker
                + "' cannot place orders (KIS only)"@,
        ),
{
}

/// The schedule is that of the first trigger, and nine in the morning without one.
pub proof fn law_the_first_trigger_sets_the_schedule(triggers: Seq<Trigger>)
    ensures
        triggers.len() > 0 ==> triggers[0] == Trigger::Schedule(first_schedule(triggers)),
        triggers.len() == 0 ==> first_schedule(triggers).at_eastern.nanos == 32_400_000_000_000u64,
{
}

/// The daemon sleeps until less than a millisecond before the fire, and never past it; to an
/// instant that is past it does not sleep.
pub proof fn law_sleep_ends_just_before_the_fire(next: Timestamp, now: Timestamp)
    requires
        next.unix_nanos - now.unix_nanos < 1_000_000 * u64::MAX,
    ensures
        next.unix_nanos <= now.unix_nanos ==> sleep_millis(next, now) == 0,
        next.unix_nanos > now.unix_nanos ==> now.unix_nanos + 1_000_000 * sleep_millis(next, now)
            <= next.unix_nanos < now.unix_nanos + 1_000_000 * (sleep_millis(next, now) + 1),
{
}

} // verus!

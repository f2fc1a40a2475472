use drip::calendar::{
    is_trading_day, knows_market, knows_year, tells_day, try_trading_date, Market,
};
use drip::date::{covers, Date, Time, Timestamp, Weekday};
use drip::engine::{
    due_jobs, knows_day, next_wake, position_market, schedule_of, skip_remark, try_due_jobs,
    try_next_wake, wait_millis, JobPlan,
};
use drip::infinite_buying::{InfiniteBuying, InfiniteBuyingConfig};
use drip::schedule::{is_due, next_fire, try_next_fire, Schedule};

fn at(month: u8, day: u8, hour: u8, minute: u8, offset: i8) -> Timestamp {
    let date = Date::from_calendar_date(2026, month, day).unwrap();
    Timestamp::from_local(date, Time::from_hm(hour, minute), offset)
}

fn utc(month: u8, day: u8, hour: u8) -> Timestamp {
    at(month, day, hour, 0, 0)
}

#[test]
fn next_fire_is_today_when_before_the_scheduled_time() {
    // Mon 2026-06-22, 12:00 UTC = 08:00 EDT, before the 09:00 fire.
    let s = Schedule::daily_before_open();
    assert_eq!(next_fire(&s, utc(6, 22, 12)), at(6, 22, 9, 0, -4));
}

#[test]
fn next_fire_rolls_to_the_next_trading_day_after_the_time_passes() {
    // Mon 2026-06-22, 14:00 UTC = 10:00 EDT, past the 09:00 fire → next is Tue.
    let s = Schedule::daily_before_open();
    assert_eq!(next_fire(&s, utc(6, 22, 14)), at(6, 23, 9, 0, -4));
}

#[test]
fn next_fire_skips_the_weekend() {
    // Fri 2026-06-26 after the fire → Mon 2026-06-29 (skips Sat/Sun).
    let s = Schedule::daily_before_open();
    assert_eq!(next_fire(&s, utc(6, 26, 20)), at(6, 29, 9, 0, -4));
}

#[test]
fn next_fire_skips_a_holiday_and_the_weekend_behind_it() {
    // Thu 2026-07-02 after the fire: Fri Jul 3 is Independence Day (observed), then Sat/Sun.
    let s = Schedule::daily_before_open();
    assert_eq!(next_fire(&s, utc(7, 2, 20)), at(7, 6, 9, 0, -4));
}

#[test]
fn is_due_only_within_the_trading_window_on_a_trading_day() {
    let s = Schedule::daily_before_open();
    assert!(is_due(&s, utc(6, 22, 14))); // 10:00 EDT Mon — due
    assert!(is_due(&s, utc(6, 22, 18))); // 14:00 EDT — mid-session catch-up
    assert!(!is_due(&s, utc(6, 22, 12))); // 08:00 EDT — before the fire time
    assert!(!is_due(&s, utc(6, 22, 21))); // 17:00 EDT — after the close
    assert!(!is_due(&s, utc(6, 20, 20))); // Saturday — never due
}

#[test]
fn position_market_maps_domestic_brokers_to_korea() {
    assert_eq!(position_market("kis-domestic"), Market::KrEquity);
    assert_eq!(position_market("toss"), Market::KrEquity);
    assert_eq!(position_market("kis"), Market::UsEquity);
    assert_eq!(position_market("paper"), Market::UsEquity);
}

#[test]
fn fires_a_due_schedule_then_stops_on_shutdown() {
    // 10:00 EDT Mon — the 09:00 schedule is already due, so it catches up immediately.
    assert_eq!(
        due_jobs(&[Schedule::daily_before_open()], utc(6, 22, 14)),
        vec![0]
    );
}

#[test]
fn does_not_fire_before_the_scheduled_time() {
    // 08:00 EDT Mon — before the 09:00 schedule.
    assert!(due_jobs(&[Schedule::daily_before_open()], utc(6, 22, 12)).is_empty());
}

#[test]
fn isolates_a_failing_job_from_the_others() {
    // Both schedules are due: the round is fixed before either job runs.
    assert_eq!(
        due_jobs(
            &[Schedule::daily_before_open(), Schedule::daily_before_open()],
            utc(6, 22, 14)
        ),
        vec![0, 1]
    );
}

#[test]
fn the_engine_wakes_at_the_soonest_schedule() {
    let late = Schedule {
        at_eastern: Time::from_hm(15, 0),
    };
    let jobs = [late, Schedule::daily_before_open()];
    assert_eq!(next_wake(&jobs, utc(6, 22, 12)), at(6, 22, 9, 0, -4));
    assert_eq!(next_wake(&jobs, utc(6, 22, 14)), at(6, 22, 15, 0, -4));
}

#[test]
fn waits_are_whole_milliseconds_and_never_negative() {
    let now = utc(6, 22, 12);
    assert_eq!(wait_millis(at(6, 22, 9, 0, -4), now), 3_600_000);
    assert_eq!(wait_millis(now, at(6, 22, 9, 0, -4)), 0);
}

#[test]
fn skipped_positions_are_remarked_on() {
    assert!(skip_remark(JobPlan::Run, "a", "kis").is_none());
    let domestic = skip_remark(JobPlan::SkipDomestic, "kodex", "kis-domestic").unwrap();
    assert!(domestic.starts_with("skipping position 'kodex': the `drip run` schedule"));
    assert_eq!(
        skip_remark(JobPlan::SkipReadOnly, "t", "toss").unwrap(),
        "skipping position 't': broker 'toss' cannot place orders (KIS only)"
    );
}

#[test]
fn a_strategy_runs_on_its_own_schedule() {
    let strategy = InfiniteBuying::new(InfiniteBuyingConfig::default());
    assert_eq!(schedule_of(&strategy), Schedule::daily_before_open());
}

#[test]
fn an_instant_is_never_its_own_next_fire() {
    let s = Schedule::daily_before_open();
    let first = next_fire(&s, utc(6, 22, 12));
    assert_eq!(next_fire(&s, first), at(6, 23, 9, 0, -4));
}

#[test]
fn what_the_calendar_knows_can_be_asked() {
    let s = Schedule::daily_before_open();
    let now = utc(6, 22, 14);
    assert!(covers(now.unix_nanos));
    assert!(knows_day(now));
    assert!(knows_year(2026) && knows_year(0) && knows_year(9999));
    assert_eq!(try_next_fire(&s, now), Some(next_fire(&s, now)));
    assert_eq!(try_next_wake(&[s], now), Some(next_wake(&[s], now)));
    assert_eq!(try_due_jobs(&[s], now), Some(vec![0]));
    for market in [Market::UsEquity, Market::KrEquity] {
        assert!(knows_market(market, now));
        assert!(try_trading_date(market, now).is_some());
    }
}

#[test]
fn outside_the_calendar_nothing_is_known() {
    let s = Schedule::daily_before_open();
    let end = Timestamp::from_local(
        Date::from_calendar_date(9999, 12, 31).unwrap(),
        Time::from_hm(23, 0),
        0,
    );
    assert!(knows_market(Market::UsEquity, end));
    // In Korea the last day is over by then.
    assert!(!knows_market(Market::KrEquity, end));
    assert_eq!(try_trading_date(Market::KrEquity, end), None);
    assert_eq!(try_next_fire(&s, end), None);
    assert_eq!(try_next_wake(&[s], end), None);
    assert_eq!(try_next_wake(&[], utc(6, 22, 14)), None);
    let beyond = Timestamp { unix_nanos: i128::MAX };
    assert!(!covers(beyond.unix_nanos));
    assert!(!knows_day(beyond));
    assert_eq!(try_due_jobs(&[s], beyond), None);
    let never = Schedule { at_eastern: Time { nanos: u64::MAX } };
    assert!(!never.at_eastern.is_valid());
    assert_eq!(try_next_fire(&never, utc(6, 22, 14)), None);
    assert_eq!(wait_millis(beyond, Timestamp { unix_nanos: i128::MIN }), u64::MAX);
}

#[test]
fn a_year_without_known_holidays_only_matters_when_it_is_reached() {
    // The computus gives no date in the year -2.
    assert!(!knows_year(-2));
    assert!(knows_year(-3));
    let s = Schedule::daily_before_open();
    let noon = |date: Date| Timestamp::from_local(date, Time::from_hm(12, 0), -4);

    // A June of the year before is far enough away.
    let before = Date::from_calendar_date(-3, 6, 10).unwrap();
    let fire = try_next_fire(&s, noon(before)).unwrap();
    assert_eq!(fire, next_fire(&s, noon(before)));
    assert!(fire.unix_nanos - noon(before).unix_nanos < 4 * 86_400_000_000_000);
    assert_eq!(try_next_wake(&[s], noon(before)), Some(fire));

    // Within the year weekends are no trading days, and of the other days nothing is known.
    let mut day = Date::from_calendar_date(-2, 6, 1).unwrap();
    for _ in 0..7 {
        let weekend = matches!(day.weekday(), Weekday::Saturday | Weekday::Sunday);
        assert_eq!(tells_day(day), weekend);
        assert_eq!(knows_day(noon(day)), weekend);
        if weekend {
            assert!(!is_trading_day(day));
            assert!(!is_due(&s, noon(day)));
            assert_eq!(try_due_jobs(&[s], noon(day)), Some(vec![]));
        } else {
            assert_eq!(try_due_jobs(&[s], noon(day)), None);
        }
        assert_eq!(try_next_fire(&s, noon(day)), None);
        day = day.next_day().unwrap();
    }
}

use drip::calendar::{
    easter_sunday, is_trading_day, last_weekday, nth_weekday, nyse_holidays, trading_date,
    us_eastern_date, us_eastern_offset, Market,
};
use drip::date::{Date, Time, Timestamp, Weekday};

fn date(year: i32, month: u8, day: u8) -> Date {
    Date::from_calendar_date(year, month, day).unwrap()
}

fn utc(year: i32, month: u8, day: u8, hour: u8, minute: u8) -> Timestamp {
    Timestamp::from_local(date(year, month, day), Time::from_hm(hour, minute), 0)
}

#[test]
fn winter_instant_resolves_to_est_date() {
    // 02:00 UTC on Jan 15 is 21:00 EST on Jan 14.
    assert_eq!(us_eastern_date(utc(2026, 1, 15, 2, 0)), date(2026, 1, 14));
}

#[test]
fn summer_instant_resolves_to_edt_date() {
    // 02:00 UTC on Jul 15 is 22:00 EDT on Jul 14.
    assert_eq!(us_eastern_date(utc(2026, 7, 15, 2, 0)), date(2026, 7, 14));
}

#[test]
fn after_hours_rerun_keeps_the_same_eastern_session_date() {
    // A US session on Mon 2026-06-22 (close 20:00 UTC). 01:00 UTC Tue is still 21:00 EDT Mon.
    assert_eq!(us_eastern_date(utc(2026, 6, 23, 1, 0)), date(2026, 6, 22));
}

#[test]
fn dst_offset_changes_the_date_at_the_utc_evening_boundary() {
    // 04:30 UTC straddles Eastern midnight differently by season.
    assert_eq!(us_eastern_date(utc(2026, 7, 1, 4, 30)), date(2026, 7, 1));
    assert_eq!(us_eastern_date(utc(2026, 1, 1, 4, 30)), date(2025, 12, 31));
}

#[test]
fn spring_forward_transition_switches_offset_exactly() {
    // 2026 spring-forward is Sun Mar 8, 07:00 UTC.
    assert_eq!(us_eastern_offset(utc(2026, 3, 8, 6, 59)), -5);
    assert_eq!(us_eastern_offset(utc(2026, 3, 8, 7, 0)), -4);
}

#[test]
fn fall_back_transition_switches_offset_exactly() {
    // 2026 fall-back is Sun Nov 1, 06:00 UTC: EDT just before, EST at/after.
    assert_eq!(us_eastern_offset(utc(2026, 11, 1, 5, 59)), -4);
    assert_eq!(us_eastern_offset(utc(2026, 11, 1, 6, 0)), -5);
}

#[test]
fn nth_weekday_finds_dst_transition_sundays() {
    assert_eq!(nth_weekday(2026, 3, Weekday::Sunday, 2), date(2026, 3, 8));
    assert_eq!(nth_weekday(2026, 11, Weekday::Sunday, 1), date(2026, 11, 1));
}

#[test]
fn nyse_holidays_2026_match_the_official_calendar() {
    let holidays = nyse_holidays(2026);
    for day in [
        date(2026, 1, 1),   // New Year's Day (Thu)
        date(2026, 1, 19),  // MLK Day
        date(2026, 2, 16),  // Washington's Birthday
        date(2026, 4, 3),   // Good Friday
        date(2026, 5, 25),  // Memorial Day
        date(2026, 6, 19),  // Juneteenth
        date(2026, 7, 3),   // Independence Day observed (Jul 4 is a Saturday)
        date(2026, 9, 7),   // Labor Day
        date(2026, 11, 26), // Thanksgiving
        date(2026, 12, 25), // Christmas
    ] {
        assert!(holidays.contains(&day), "expected {} to be a holiday", day.to_text());
    }
    assert_eq!(holidays.len(), 10);
}

#[test]
fn nyse_holidays_2027_observe_weekend_shifts() {
    let holidays = nyse_holidays(2027);
    assert!(holidays.contains(&date(2027, 3, 26))); // Good Friday
    assert!(holidays.contains(&date(2027, 6, 18))); // Juneteenth (Jun 19 is a Saturday)
    assert!(holidays.contains(&date(2027, 7, 5))); // Independence Day (Jul 4 is a Sunday)
    assert!(holidays.contains(&date(2027, 12, 24))); // Christmas (Dec 25 is a Saturday)
}

#[test]
fn is_trading_day_excludes_weekends_and_holidays() {
    assert!(is_trading_day(date(2026, 6, 22))); // a normal Monday
    assert!(!is_trading_day(date(2026, 6, 20))); // Saturday
    assert!(!is_trading_day(date(2026, 7, 3))); // Independence Day observed
    assert!(!is_trading_day(date(2026, 12, 25))); // Christmas
    assert!(is_trading_day(date(2026, 12, 24))); // Christmas Eve still trades
}

#[test]
fn korea_trading_date_is_stable_across_the_eastern_rollover_intraday() {
    // Two runs in the same KRX session (Wed 2026-06-24, 12:00 and 14:30 KST).
    let noon_kst = utc(2026, 6, 24, 3, 0);
    let afternoon_kst = utc(2026, 6, 24, 5, 30);
    assert_eq!(trading_date(Market::KrEquity, noon_kst), date(2026, 6, 24));
    assert_eq!(trading_date(Market::KrEquity, afternoon_kst), date(2026, 6, 24));
    // The same instants on the US-Eastern calendar straddle midnight.
    assert_ne!(us_eastern_date(noon_kst), us_eastern_date(afternoon_kst));
}

#[test]
fn us_trading_date_matches_the_eastern_date() {
    let now = utc(2026, 6, 23, 1, 0);
    assert_eq!(trading_date(Market::UsEquity, now), us_eastern_date(now));
    assert_eq!(trading_date(Market::UsEquity, now), date(2026, 6, 22));
}

#[test]
fn korea_trading_date_has_no_dst_shift() {
    // 15:00 UTC = 00:00 KST the next day, both seasons.
    assert_eq!(
        trading_date(Market::KrEquity, utc(2026, 1, 15, 15, 0)),
        date(2026, 1, 16)
    );
    assert_eq!(
        trading_date(Market::KrEquity, utc(2026, 7, 15, 15, 0)),
        date(2026, 7, 16)
    );
}

#[test]
fn easter_is_a_spring_sunday() {
    assert_eq!(easter_sunday(2026), date(2026, 4, 5));
    assert_eq!(easter_sunday(2000), date(2000, 4, 23));
    assert_eq!(easter_sunday(2008), date(2008, 3, 23));
    assert_eq!(easter_sunday(2038), date(2038, 4, 25));
    assert_eq!(easter_sunday(2027).weekday(), Weekday::Sunday);
}

#[test]
fn a_week_without_a_trading_day_does_not_occur() {
    let mut day = date(2026, 1, 1);
    let mut closed = 0;
    for _ in 0..365 {
        if is_trading_day(day) {
            closed = 0;
        } else {
            closed += 1;
        }
        assert!(closed < 7);
        day = day.next_day().unwrap();
    }
}

#[test]
fn last_weekday_ends_the_month() {
    assert_eq!(last_weekday(2026, 5, Weekday::Monday), date(2026, 5, 25));
    assert_eq!(last_weekday(2024, 2, Weekday::Thursday), date(2024, 2, 29));
}

#[test]
fn dates_step_over_month_and_year_ends() {
    assert_eq!(date(2025, 12, 31).next_day(), Some(date(2026, 1, 1)));
    assert_eq!(date(2024, 3, 1).previous_day(), Some(date(2024, 2, 29)));
    assert_eq!(date(2026, 6, 21).days_before(90), date(2026, 3, 23));
    assert!(Date::from_calendar_date(2026, 2, 29).is_none());
    assert!(Date::from_calendar_date(2026, 13, 1).is_none());
    assert_eq!(date(9999, 12, 31).next_day(), None);
    assert!(date(2026, 1, 31).is_before(&date(2026, 2, 1)));
}

#[test]
fn dates_are_written_and_read() {
    assert_eq!(date(2026, 6, 5).to_text(), "2026-06-05");
    assert_eq!(Date::parse("2026-06-05").unwrap(), date(2026, 6, 5));
    assert!(Date::parse("05/06/2026").is_err());
    assert!(Date::parse("2026-02-30").is_err());
}

#[test]
fn the_clock_shows_local_time() {
    let (day, time) = utc(2026, 6, 22, 23, 30).local(9);
    assert_eq!(day, date(2026, 6, 23));
    assert_eq!(time, Time::from_hm(8, 30));
    assert_eq!(
        Timestamp::from_local(day, time, 9),
        utc(2026, 6, 22, 23, 30)
    );
}

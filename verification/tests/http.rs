use drip::date::Date;
use drip::decimal::Decimal;
use drip::http::{
    expiry_at, kept_token_step, parse_decimal, parse_price_opt, parse_shares, parse_yyyymmdd,
    retry_wait, saved_token_step, seconds_left, spacing_wait, token_seconds, yyyymmdd, TokenStep,
    MAX_ATTEMPTS,
};
use drip::money::{Price, Shares};
use drip::text::{
    comes_before, fixed_hex_text, fixed_text, number_text, pad_left, pad_right, signed_text,
};

fn dec(s: &str) -> Decimal {
    Decimal::parse(s).unwrap()
}

#[test]
fn token_store_round_trips_a_valid_token() {
    let now = 1_782_000_000;
    let expires = expiry_at(now, 3600);
    assert_eq!(seconds_left(expires, now), Some(3600));
    assert_eq!(seconds_left(expires, now + 100), Some(3500));
}

#[test]
fn token_store_treats_an_expired_file_as_a_miss() {
    // A past expiry must be None, not wrap to a ~584-billion-year remainder.
    assert_eq!(seconds_left(1_000, 1_782_000_000), None);
    assert_eq!(seconds_left(1_000, 1_000), None);
}

#[test]
fn rate_limiter_spaces_successive_acquires() {
    assert_eq!(spacing_wait(None, 40), 0); // first is immediate (no prior)
    assert_eq!(spacing_wait(Some(0), 40), 40); // second waits out the interval
    assert_eq!(spacing_wait(Some(15), 40), 25);
    assert_eq!(spacing_wait(Some(41), 40), 0);
}

#[test]
fn tokens_are_renewed_a_minute_early() {
    assert_eq!(token_seconds(86_400), 86_340);
    assert_eq!(token_seconds(30), 0);
}

#[test]
fn only_server_errors_are_retried() {
    assert_eq!(retry_wait(500, 1, 300), Some(300));
    assert_eq!(retry_wait(503, 2, 300), Some(600));
    assert_eq!(retry_wait(500, MAX_ATTEMPTS, 300), None);
    assert_eq!(retry_wait(404, 1, 300), None);
    assert_eq!(retry_wait(200, 1, 300), None);
}

#[test]
fn numbers_are_read_from_fields() {
    assert_eq!(parse_decimal(" 12.50 ").unwrap(), dec("12.5"));
    assert!(parse_decimal("x").is_err());
    assert_eq!(parse_shares("12").unwrap(), Shares::new(12));
    assert_eq!(parse_shares("12.00").unwrap(), Shares::new(12));
    assert!(parse_shares("-1").is_err());
    assert_eq!(parse_price_opt("0").unwrap(), None);
    assert_eq!(parse_price_opt("5.5").unwrap(), Price::new(dec("5.5")));
    assert!(parse_price_opt("y").is_err());
}

#[test]
fn compact_dates_round_trip() {
    let day = Date::from_calendar_date(2026, 6, 5).unwrap();
    assert_eq!(yyyymmdd(day), "20260605");
    assert_eq!(parse_yyyymmdd("20260605").unwrap(), day);
    for bad in ["2026065", "20261301", "20260230", "2026-6-5", ""] {
        assert!(parse_yyyymmdd(bad).is_err());
    }
}

#[test]
fn texts_are_built_and_ordered() {
    assert_eq!(number_text(0), "0");
    assert_eq!(number_text(18_446_744_073_709_551_615), "18446744073709551615");
    assert_eq!(signed_text(-7), "-7");
    assert_eq!(signed_text(i64::MIN), "-9223372036854775808");
    assert_eq!(fixed_text(7, 2), "07");
    assert_eq!(fixed_hex_text(255, 4), "00ff");
    assert_eq!(pad_right("1.1", 5), "1.1  ");
    assert_eq!(pad_right("123456", 5), "123456");
    assert_eq!(pad_left("-", 3), "  -");
    assert!(comes_before("a", "ab"));
    assert!(comes_before("ab", "b"));
    assert!(!comes_before("b", "b"));
}

#[test]
fn a_token_comes_from_memory_then_the_store_then_the_broker() {
    assert_eq!(kept_token_step(Some(1), true), TokenStep::UseKept);
    assert_eq!(kept_token_step(Some(0), true), TokenStep::ReadStore);
    assert_eq!(kept_token_step(None, true), TokenStep::ReadStore);
    assert_eq!(kept_token_step(None, false), TokenStep::Fetch);
    assert_eq!(saved_token_step(Some(1_100), 1_000), TokenStep::UseSaved(100));
    assert_eq!(saved_token_step(Some(1_000), 1_000), TokenStep::Fetch);
    assert_eq!(saved_token_step(None, 1_000), TokenStep::Fetch);
}

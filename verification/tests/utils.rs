use laundry_optimizer::clock::Timestamp;
use laundry_optimizer::utils::{
    calculate_cache_ttl, celsius_to_fahrenheit, clamp, exponential_moving_average,
    fahrenheit_to_celsius, format_duration, generate_window_id, hpa_to_inhg, inhg_to_hpa,
    is_valid_email, jitter, kmh_to_ms, lerp, moving_average, mph_to_ms, ms_to_kmh, ms_to_mph,
    parse_timezone, round_to_decimals, sanitize_string, utc_to_local, validate_coordinates,
    weather_cache_key, with_jitter, ErrorResponse, RateLimiter, SuccessResponse,
};
use std::time::Duration;

fn fx(value: f64) -> i64 {
    (value * 1_000_000.0).round() as i64
}

#[test]
fn test_validate_coordinates() {
    assert!(validate_coordinates(fx(0.0), fx(0.0)).is_ok());
    assert!(validate_coordinates(fx(90.0), fx(180.0)).is_ok());
    assert!(validate_coordinates(fx(-90.0), fx(-180.0)).is_ok());
    assert!(validate_coordinates(fx(91.0), fx(0.0)).is_err());
    assert!(validate_coordinates(fx(0.0), fx(181.0)).is_err());
}

#[test]
fn test_temperature_conversion() {
    assert!((celsius_to_fahrenheit(fx(0.0)) - fx(32.0)).abs() < fx(0.01));
    assert!((fahrenheit_to_celsius(fx(32.0)) - fx(0.0)).abs() < fx(0.01));
    assert!((celsius_to_fahrenheit(fx(100.0)) - fx(212.0)).abs() < fx(0.01));
}

#[test]
fn test_format_duration() {
    assert_eq!(format_duration(0), "0 hours");
    assert_eq!(format_duration(1), "1 hour");
    assert_eq!(format_duration(2), "2 hours");
    assert_eq!(format_duration(24), "1 day");
    assert_eq!(format_duration(25), "1 day 1 hours");
    assert_eq!(format_duration(48), "2 days");
}

#[test]
fn test_clamp() {
    assert_eq!(clamp(fx(5.0), fx(0.0), fx(10.0)), fx(5.0));
    assert_eq!(clamp(fx(-1.0), fx(0.0), fx(10.0)), fx(0.0));
    assert_eq!(clamp(fx(15.0), fx(0.0), fx(10.0)), fx(10.0));
}

#[test]
fn test_moving_average() {
    let values = vec![fx(1.0), fx(2.0), fx(3.0), fx(4.0), fx(5.0)];
    let avg = moving_average(&values, 3);
    assert_eq!(avg.len(), 5);
    assert_eq!(avg[0], fx(1.0));
    assert_eq!(avg[1], fx(1.5));
    assert_eq!(avg[2], fx(2.0));
    assert_eq!(avg[3], fx(3.0));
    assert_eq!(avg[4], fx(4.0));
}

#[test]
fn test_is_valid_email() {
    assert!(is_valid_email("test@example.com"));
    assert!(is_valid_email("user.name+tag@domain.co.uk"));
    assert!(!is_valid_email("invalid"));
    assert!(!is_valid_email("@domain.com"));
    assert!(!is_valid_email("user@"));
}

#[test]
fn test_rate_limiter() {
    let mut limiter = RateLimiter::new(2, 60_000);
    let now = 1_700_000_000_000;

    assert!(limiter.check_rate_limit("user1", now));
    assert!(limiter.check_rate_limit("user1", now));
    assert!(!limiter.check_rate_limit("user1", now));

    assert!(limiter.check_rate_limit("user2", now));
}

#[test]
fn rate_limiter_forgets_requests_outside_the_window() {
    let mut limiter = RateLimiter::new(2, 60_000);
    assert!(limiter.check_rate_limit("user1", 1_000));
    assert!(limiter.check_rate_limit("user1", 31_000));
    assert!(!limiter.check_rate_limit("user1", 60_999));
    assert!(limiter.check_rate_limit("user1", 61_000));
    assert!(!limiter.check_rate_limit("user1", 61_001));
    assert!(!limiter.check_rate_limit("user1", 90_999));
    assert!(limiter.check_rate_limit("user1", 91_000));
    assert!(!limiter.check_rate_limit("user1", 91_000));
}

#[test]
fn rate_limiter_with_no_allowance_admits_nothing() {
    let mut limiter = RateLimiter::new(0, 60_000);
    assert!(!limiter.check_rate_limit("user1", 0));
    assert!(!limiter.check_rate_limit("user1", i64::MAX));
}

#[test]
fn rate_limiter_cleanup_keeps_what_still_counts() {
    let mut limiter = RateLimiter::new(2, 60_000);
    assert!(limiter.check_rate_limit("old", 0));
    assert!(limiter.check_rate_limit("mixed", 0));
    assert!(limiter.check_rate_limit("mixed", 50_000));
    assert!(limiter.check_rate_limit("new", 50_000));
    limiter.cleanup_old_entries(70_000);
    assert!(limiter.check_rate_limit("old", 70_000));
    assert!(limiter.check_rate_limit("old", 70_000));
    assert!(limiter.check_rate_limit("mixed", 70_000));
    assert!(!limiter.check_rate_limit("mixed", 70_000));
    assert!(limiter.check_rate_limit("new", 70_000));
    assert!(!limiter.check_rate_limit("new", 70_000));
    limiter.cleanup_old_entries(i64::MAX);
    assert!(limiter.check_rate_limit("mixed", i64::MIN));
}

#[test]
fn format_duration_counts_days_and_leftover_hours() {
    assert_eq!(format_duration(23), "23 hours");
    assert_eq!(format_duration(47), "1 day 23 hours");
    assert_eq!(format_duration(49), "2 days 1 hours");
    assert_eq!(format_duration(168), "7 days");
    assert_eq!(format_duration(u32::MAX), "178956970 days 15 hours");
}

#[test]
fn email_needs_an_at_sign_a_dot_and_a_fitting_length() {
    assert!(is_valid_email("a@b.cd"));
    assert!(!is_valid_email("a@b.c"));
    assert!(!is_valid_email("ab.cdef"));
    assert!(!is_valid_email("abcd@ef"));
    assert!(!is_valid_email("@a.bcdef"));
    let long_name = "a".repeat(248);
    assert!(is_valid_email(&format!("{}@b.cde", long_name)));
    assert!(!is_valid_email(&format!("{}@b.cdef", long_name)));
    assert!(is_valid_email("é@b.c"));
}

#[test]
fn sanitize_string_keeps_allowed_characters_cuts_and_trims() {
    assert_eq!(sanitize_string("Hello, World!", 20), "Hello, World!");
    assert_eq!(sanitize_string("<script>alert('xss')</script>", 20), "scriptalert('xss')sc");
    assert_eq!(sanitize_string("<script>alert('xss')</script>", 40), "scriptalert('xss')script");
    assert_eq!(sanitize_string("Very long string that exceeds limit", 10), "Very long");
    assert_eq!(sanitize_string("  padded  ", 20), "padded");
    assert_eq!(sanitize_string("   ", 20), "");
    assert_eq!(sanitize_string("abc", 0), "");
    assert_eq!(sanitize_string("", 5), "");
    assert_eq!(sanitize_string("a\tb\u{a0}c\u{3000}", 10), "a\tb\u{a0}c");
    assert_eq!(sanitize_string("größe #1: 50% [ok] {x} \"q\" a_b-c;d?", 99), "größe 1: 50 [ok] {x} \"q\" a_b-c;d?");
    assert_eq!(sanitize_string("  ab  cd", 4), "ab");
}

#[test]
fn cache_ttl_depends_on_the_kind_of_data() {
    assert_eq!(calculate_cache_ttl("current"), Duration::from_secs(600));
    assert_eq!(calculate_cache_ttl("hourly"), Duration::from_secs(1_800));
    assert_eq!(calculate_cache_ttl("daily"), Duration::from_secs(7_200));
    assert_eq!(calculate_cache_ttl("geocode"), Duration::from_secs(86_400));
    assert_eq!(calculate_cache_ttl("Current"), Duration::from_secs(1_800));
    assert_eq!(calculate_cache_ttl(""), Duration::from_secs(1_800));
}

#[test]
fn coordinates_out_of_range_are_named_in_the_complaint() {
    assert_eq!(
        validate_coordinates(fx(91.5), 0),
        Err("Invalid latitude: 91.5. Must be between -90 and 90".to_string())
    );
    assert_eq!(
        validate_coordinates(0, fx(-181.0)),
        Err("Invalid longitude: -181. Must be between -180 and 180".to_string())
    );
    assert_eq!(
        validate_coordinates(fx(-90.000001), fx(500.0)),
        Err("Invalid latitude: -90.000001. Must be between -90 and 90".to_string())
    );
    assert_eq!(validate_coordinates(fx(90.0), fx(-180.0)), Ok(()));
}

#[test]
fn window_id_names_place_start_and_length() {
    assert_eq!(
        generate_window_id(fx(13.7563), fx(100.5018), 1_700_000_000, 3),
        "window_13.7563_100.5018_1700000000_3h"
    );
    assert_eq!(generate_window_id(fx(-0.00004), fx(-7.5), -60, 0), "window_-0.0000_-7.5000_-60_0h");
    assert_eq!(generate_window_id(fx(1.99995), fx(0.00005), 0, 12), "window_2.0000_0.0001_0_12h");
}

#[test]
fn cache_key_names_endpoint_and_place() {
    assert_eq!(weather_cache_key(fx(13.7563), fx(100.5018), "onecall"), "weather_onecall_13.7563_100.5018");
    assert_eq!(weather_cache_key(fx(-13.75635), fx(0.00004), "forecast"), "weather_forecast_-13.7564_0.0000");
}

#[test]
fn unit_conversions_match_their_factors() {
    assert_eq!(celsius_to_fahrenheit(fx(0.0)), fx(32.0));
    assert_eq!(celsius_to_fahrenheit(fx(100.0)), fx(212.0));
    assert_eq!(celsius_to_fahrenheit(fx(-40.0)), fx(-40.0));
    assert_eq!(fahrenheit_to_celsius(fx(212.0)), fx(100.0));
    assert_eq!(fahrenheit_to_celsius(fx(33.0)), 555_555);
    assert_eq!(ms_to_kmh(fx(10.0)), fx(36.0));
    assert_eq!(kmh_to_ms(fx(36.0)), fx(10.0));
    assert_eq!(ms_to_mph(fx(10.0)), fx(22.37));
    assert_eq!(mph_to_ms(fx(22.37)), fx(10.0));
    assert_eq!(hpa_to_inhg(fx(1013.25)), 29_921_272);
    assert_eq!(inhg_to_hpa(fx(29.92)), 1_013_206_908);
}

#[test]
fn unit_conversions_saturate() {
    assert_eq!(celsius_to_fahrenheit(i64::MAX), i64::MAX);
    assert_eq!(celsius_to_fahrenheit(i64::MIN), i64::MIN);
    assert_eq!(ms_to_kmh(i64::MAX), i64::MAX);
    assert_eq!(inhg_to_hpa(i64::MIN), i64::MIN);
    assert_eq!(fahrenheit_to_celsius(i64::MIN), -5124095576048208783);
}

#[test]
fn clamp_lets_the_lower_bound_win_for_a_value_below_it() {
    assert_eq!(clamp(1, 8, 3), 8);
    assert_eq!(clamp(9, 8, 3), 3);
    assert_eq!(clamp(5, 5, 5), 5);
}

#[test]
fn lerp_moves_a_fraction_of_the_way() {
    assert_eq!(lerp(fx(10.0), fx(20.0), fx(0.25)), fx(12.5));
    assert_eq!(lerp(fx(10.0), fx(20.0), fx(0.0)), fx(10.0));
    assert_eq!(lerp(fx(10.0), fx(20.0), fx(1.0)), fx(20.0));
    assert_eq!(lerp(fx(10.0), fx(20.0), fx(2.0)), fx(20.0));
    assert_eq!(lerp(fx(10.0), fx(20.0), fx(-1.0)), fx(10.0));
    assert_eq!(lerp(fx(20.0), fx(10.0), fx(0.5)), fx(15.0));
    assert_eq!(lerp(i64::MIN, i64::MAX, fx(1.0)), i64::MAX);
}

#[test]
fn moving_average_of_nothing_is_empty() {
    assert_eq!(moving_average(&[], 3), Vec::<i64>::new());
    assert_eq!(moving_average(&[fx(1.0)], 0), Vec::<i64>::new());
    assert_eq!(moving_average(&[1, 2], 1), vec![1, 2]);
    assert_eq!(moving_average(&[1, 2, 4], 9), vec![1, 1, 2]);
    assert_eq!(moving_average(&[-1, -2], 2), vec![-1, -2]);
    assert_eq!(moving_average(&[i64::MAX, i64::MAX], 2), vec![i64::MAX, i64::MAX]);
}

#[test]
fn exponential_moving_average_blends_with_the_past() {
    assert_eq!(exponential_moving_average(&[], fx(0.5)), Vec::<i64>::new());
    assert_eq!(
        exponential_moving_average(&[fx(1.0), fx(2.0), fx(3.0)], fx(0.5)),
        vec![fx(1.0), fx(1.5), fx(2.25)]
    );
    assert_eq!(exponential_moving_average(&[fx(1.0), fx(2.0)], fx(1.0)), vec![fx(1.0), fx(2.0)]);
    assert_eq!(exponential_moving_average(&[fx(1.0), fx(2.0)], fx(0.0)), vec![fx(1.0), fx(1.0)]);
    assert_eq!(
        exponential_moving_average(&[i64::MAX, i64::MAX], i64::MAX),
        vec![i64::MAX, i64::MAX - 1]
    );
}

#[test]
fn rounding_goes_half_away_from_zero() {
    assert_eq!(round_to_decimals(fx(1.23456), 2), fx(1.23));
    assert_eq!(round_to_decimals(fx(1.235), 2), fx(1.24));
    assert_eq!(round_to_decimals(fx(-1.235), 2), fx(-1.24));
    assert_eq!(round_to_decimals(fx(2.5), 0), fx(3.0));
    assert_eq!(round_to_decimals(fx(-2.5), 0), fx(-3.0));
    assert_eq!(round_to_decimals(fx(2.4), 0), fx(2.0));
    assert_eq!(round_to_decimals(1_234_567, 5), 1_234_570);
    assert_eq!(round_to_decimals(1_234_567, 6), 1_234_567);
    assert_eq!(round_to_decimals(1_234_567, 9), 1_234_567);
    assert_eq!(round_to_decimals(i64::MAX, 0), i64::MAX);
    assert_eq!(round_to_decimals(i64::MIN, 0), i64::MIN);
}

#[test]
fn jitter_stays_within_its_range() {
    for _ in 0..200 {
        let delay = jitter(1_000, 250);
        assert!((1_000..=1_250).contains(&delay));
    }
    assert_eq!(jitter(500, 0), 500);
    assert_eq!(with_jitter(1_000, 17), 1_017);
    let mut seen = std::collections::BTreeSet::new();
    for _ in 0..200 {
        seen.insert(jitter(0, 1_000_000_000));
    }
    assert!(seen.len() > 1);
}

#[test]
fn timezone_names_are_looked_up() {
    assert_eq!(parse_timezone("Asia/Bangkok"), Ok(chrono_tz::Tz::Asia__Bangkok));
    assert_eq!(parse_timezone("UTC"), Ok(chrono_tz::Tz::UTC));
    assert_eq!(parse_timezone("Nowhere/Land"), Err("Invalid timezone: Nowhere/Land".to_string()));
    assert_eq!(parse_timezone(""), Err("Invalid timezone: ".to_string()));
}

#[test]
fn local_time_carries_the_offset_of_the_zone() {
    assert_eq!(
        utc_to_local(1_700_000_000, "Asia/Bangkok"),
        Ok(Timestamp { secs: 1_700_000_000, offset_secs: 25_200 })
    );
    assert_eq!(
        utc_to_local(1_700_000_000, "America/New_York"),
        Ok(Timestamp { secs: 1_700_000_000, offset_secs: -18_000 })
    );
    assert_eq!(
        utc_to_local(1_690_000_000, "America/New_York"),
        Ok(Timestamp { secs: 1_690_000_000, offset_secs: -14_400 })
    );
    assert_eq!(utc_to_local(0, "Mars/Olympus"), Err("Invalid timezone: Mars/Olympus".to_string()));
    assert_eq!(
        utc_to_local(i64::MAX, "Asia/Bangkok"),
        Err("Invalid timestamp: 9223372036854775807".to_string())
    );
}

#[test]
fn responses_carry_their_time_and_request_id() {
    let error = ErrorResponse::new("no such user", "NOT_FOUND", 1_700_000_000_000);
    assert_eq!(error.error, "no such user");
    assert_eq!(error.code, "NOT_FOUND");
    assert_eq!(error.timestamp, 1_700_000_000_000);
    assert_eq!(error.request_id, None);
    let error = error.with_request_id("req-1".to_string());
    assert_eq!(error.error, "no such user");
    assert_eq!(error.request_id, Some("req-1".to_string()));

    let success = SuccessResponse::new(vec![1, 2, 3], 5);
    assert_eq!(success.data, vec![1, 2, 3]);
    assert_eq!(success.timestamp, 5);
    assert_eq!(success.request_id, None);
    let success = success.with_request_id("req-2".to_string());
    assert_eq!(success.data, vec![1, 2, 3]);
    assert_eq!(success.request_id, Some("req-2".to_string()));
}

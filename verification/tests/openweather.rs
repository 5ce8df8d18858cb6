use laundry_optimizer::clock::{normalize_offset, read_instant, Timestamp};
use laundry_optimizer::forecast::openweather::{
    fetch_step, http_error_text, is_valid_coordinates, read_rain_amount, FetchStep,
};
use laundry_optimizer::forecast::types::{
    Forecast3hClouds, Forecast3hItem, Forecast3hMain, Forecast3hSys, Forecast3hWind, HourlyData,
    OneCallDaily, OneCallDailyTemp, OneCallHourly,
};

fn fx(value: f64) -> i64 {
    (value * 1_000_000.0).round() as i64
}

fn hourly(dt: i64, rain: Option<Vec<(String, i64)>>) -> OneCallHourly {
    OneCallHourly {
        dt,
        temp: fx(27.5),
        humidity: fx(61.0),
        wind_speed: fx(3.2),
        clouds: fx(45.0),
        pop: fx(0.35),
        rain,
    }
}

fn item(dt: i64, rain: Option<Vec<(String, i64)>>) -> Forecast3hItem {
    Forecast3hItem {
        dt,
        main: Forecast3hMain {
            temp: fx(26.0),
            feels_like: fx(28.0),
            temp_min: fx(24.0),
            temp_max: fx(28.0),
            pressure: fx(1013.0),
            sea_level: None,
            grnd_level: None,
            humidity: fx(65.0),
            temp_kf: None,
        },
        weather: Vec::new(),
        clouds: Forecast3hClouds { all: fx(35.0) },
        wind: Forecast3hWind { speed: fx(2.5), deg: fx(180.0), gust: None },
        visibility: None,
        pop: fx(0.15),
        rain,
        snow: None,
        sys: Forecast3hSys { pod: "d".to_string() },
        dt_txt: String::new(),
    }
}

fn daily(dt: i64, humidity: f64, clouds: f64) -> OneCallDaily {
    OneCallDaily {
        dt,
        temp: OneCallDailyTemp { day: fx(30.0), min: 0, max: 0, night: 0, eve: 0, morn: 0 },
        humidity: fx(humidity),
        wind_speed: fx(2.0),
        clouds: fx(clouds),
        pop: fx(0.4),
        rain: Some(fx(4.0)),
    }
}

#[test]
fn hourly_record_maps_one_to_one() {
    let record = hourly(1_700_000_000, Some(vec![("1h".to_string(), fx(0.8))]));
    let hour = HourlyData::from(&record);
    assert_eq!(
        hour,
        HourlyData {
            ts: Timestamp { secs: 1_700_000_000, offset_secs: 25_200 },
            temp_c: fx(27.5),
            rh: fx(61.0),
            wind_ms: fx(3.2),
            cloud: fx(0.45),
            rain_p: fx(0.35),
            rain_mm: fx(0.8),
        }
    );
}

#[test]
fn hourly_record_without_rain_has_none() {
    assert_eq!(HourlyData::from(&hourly(0, None)).rain_mm, 0);
    let other_key = Some(vec![("3h".to_string(), fx(0.8))]);
    assert_eq!(HourlyData::from(&hourly(0, other_key)).rain_mm, 0);
}

#[test]
fn rain_lookup_takes_the_first_entry_under_the_key() {
    let table = Some(vec![
        ("3h".to_string(), fx(1.0)),
        ("1h".to_string(), fx(2.0)),
        ("1h".to_string(), fx(3.0)),
    ]);
    assert_eq!(read_rain_amount(&table, "1h"), fx(2.0));
    assert_eq!(read_rain_amount(&table, "3h"), fx(1.0));
    assert_eq!(read_rain_amount(&table, "6h"), 0);
    assert_eq!(read_rain_amount(&None, "1h"), 0);
}

#[test]
fn hourly_record_out_of_the_calendar_stands_at_the_epoch() {
    assert_eq!(HourlyData::from(&hourly(i64::MAX, None)).ts.secs, 0);
    assert_eq!(HourlyData::from(&hourly(i64::MIN, None)).ts.secs, 0);
    assert_eq!(HourlyData::from(&hourly(-86_400, None)).ts.secs, -86_400);
    assert_eq!(read_instant(8_000_000_000_000), 8_000_000_000_000);
    assert_eq!(read_instant(9_000_000_000_000), 0);
}

#[test]
fn three_hour_record_gives_three_hours_with_a_third_of_the_rain() {
    let record = item(1_700_000_000, Some(vec![("3h".to_string(), fx(3.0))]));
    let hours = HourlyData::from_forecast3h_item(&record, 7 * 3600);
    assert_eq!(hours.len(), 3);
    for (k, hour) in hours.iter().enumerate() {
        assert_eq!(
            *hour,
            HourlyData {
                ts: Timestamp { secs: 1_700_000_000 + 3600 * k as i64, offset_secs: 25_200 },
                temp_c: fx(26.0),
                rh: fx(65.0),
                wind_ms: fx(2.5),
                cloud: fx(0.35),
                rain_p: fx(0.15),
                rain_mm: fx(1.0),
            }
        );
    }
}

#[test]
fn three_hour_record_divides_rain_rounding_down() {
    let hours = HourlyData::from_forecast3h_item(&item(0, Some(vec![("3h".to_string(), 2)])), 0);
    assert_eq!(hours[0].rain_mm, 0);
    let hours = HourlyData::from_forecast3h_item(&item(0, Some(vec![("3h".to_string(), -1)])), 0);
    assert_eq!(hours[2].rain_mm, -1);
    let hours = HourlyData::from_forecast3h_item(&item(0, None), 0);
    assert_eq!(hours[1].rain_mm, 0);
}

#[test]
fn three_hour_record_uses_the_callers_offset_where_valid() {
    assert_eq!(HourlyData::from_forecast3h_item(&item(0, None), -3600)[0].ts.offset_secs, -3600);
    assert_eq!(HourlyData::from_forecast3h_item(&item(0, None), 90_000)[0].ts.offset_secs, 25_200);
    assert_eq!(HourlyData::from_forecast3h_item(&item(0, None), -86_400)[0].ts.offset_secs, 25_200);
}

#[test]
fn offsets_are_valid_strictly_within_a_day() {
    assert_eq!(normalize_offset(0), 0);
    assert_eq!(normalize_offset(86_399), 86_399);
    assert_eq!(normalize_offset(-86_399), -86_399);
    assert_eq!(normalize_offset(86_400), 25_200);
    assert_eq!(normalize_offset(-86_400), 25_200);
    assert_eq!(normalize_offset(i32::MAX), 25_200);
    assert_eq!(normalize_offset(i32::MIN), 25_200);
}

#[test]
fn daily_record_gives_a_warmer_drier_clearer_day() {
    let hour = HourlyData::from_daily_synthesized(&daily(1_700_000_000, 70.0, 60.0), 7 * 3600, 14);
    assert_eq!(
        hour,
        HourlyData {
            ts: Timestamp { secs: 1_700_032_400, offset_secs: 25_200 },
            temp_c: fx(31.0),
            rh: fx(65.0),
            wind_ms: fx(2.0),
            cloud: fx(0.5),
            rain_p: fx(0.05),
            rain_mm: fx(0.5),
        }
    );
}

#[test]
fn daily_record_gives_a_cooler_damper_cloudier_night() {
    let hour = HourlyData::from_daily_synthesized(&daily(1_700_000_000, 70.0, 60.0), 7 * 3600, 2);
    assert_eq!(
        hour,
        HourlyData {
            ts: Timestamp { secs: 1_699_989_200, offset_secs: 25_200 },
            temp_c: fx(29.0),
            rh: fx(75.0),
            wind_ms: fx(2.0),
            cloud: fx(0.7),
            rain_p: fx(0.05),
            rain_mm: fx(0.5),
        }
    );
}

#[test]
fn daily_record_counts_daylight_from_six_up_to_eighteen() {
    let record = daily(0, 50.0, 50.0);
    assert_eq!(HourlyData::from_daily_synthesized(&record, 0, 5).temp_c, fx(29.0));
    assert_eq!(HourlyData::from_daily_synthesized(&record, 0, 6).temp_c, fx(31.0));
    assert_eq!(HourlyData::from_daily_synthesized(&record, 0, 17).temp_c, fx(31.0));
    assert_eq!(HourlyData::from_daily_synthesized(&record, 0, 18).temp_c, fx(29.0));
}

#[test]
fn daily_record_clamps_humidity_and_cloud() {
    let dry = HourlyData::from_daily_synthesized(&daily(0, 3.0, 5.0), 0, 12);
    assert_eq!(dry.rh, 0);
    assert_eq!(dry.cloud, 0);
    let damp = HourlyData::from_daily_synthesized(&daily(0, 98.0, 95.0), 0, 0);
    assert_eq!(damp.rh, fx(100.0));
    assert_eq!(damp.cloud, fx(1.0));
}

#[test]
fn daily_record_without_rain_has_none() {
    let mut record = daily(0, 50.0, 50.0);
    record.rain = None;
    assert_eq!(HourlyData::from_daily_synthesized(&record, 0, 12).rain_mm, 0);
}

#[test]
fn daily_record_moves_to_the_local_hour_of_its_day() {
    let at_utc = HourlyData::from_daily_synthesized(&daily(1_700_000_000, 50.0, 50.0), 0, 0);
    assert_eq!(at_utc.ts, Timestamp { secs: 1_699_920_800, offset_secs: 0 });
    let west = HourlyData::from_daily_synthesized(&daily(1_700_000_000, 50.0, 50.0), -8 * 3600, 23);
    assert_eq!(west.ts, Timestamp { secs: 1_700_032_400, offset_secs: -28_800 });
}

#[test]
fn daily_record_keeps_minute_and_second_before_the_epoch_and_off_the_hour() {
    let before_epoch = HourlyData::from_daily_synthesized(&daily(-1, 50.0, 50.0), 0, 0);
    assert_eq!(before_epoch.ts, Timestamp { secs: -82_801, offset_secs: 0 });
    let half_hour_zone = HourlyData::from_daily_synthesized(&daily(1_700_000_000, 50.0, 50.0), 19_800, 9);
    assert_eq!(half_hour_zone.ts, Timestamp { secs: 1_700_021_600, offset_secs: 19_800 });
    let odd_zone = HourlyData::from_daily_synthesized(&daily(-1_000_000_007, 50.0, 50.0), -86_399, 23);
    let local = -1_000_000_007_i64 - 86_399;
    let second_of_day = local.rem_euclid(86_400);
    let expected = -1_000_000_007 - second_of_day + 23 * 3600 + second_of_day % 3600;
    assert_eq!(odd_zone.ts, Timestamp { secs: expected, offset_secs: -86_399 });
}

#[test]
fn daily_record_with_an_impossible_hour_stands_at_the_epoch() {
    let record = daily(1_700_000_000, 50.0, 50.0);
    for hour_of_day in [24, 99, -1, i32::MIN, i32::MAX] {
        let hour = HourlyData::from_daily_synthesized(&record, 7 * 3600, hour_of_day);
        assert_eq!(hour.ts, Timestamp { secs: 0, offset_secs: 0 });
        assert_eq!(hour.temp_c, fx(29.0));
    }
}

#[test]
fn daily_record_saturates_at_the_ends_of_the_range() {
    let mut record = daily(0, 50.0, 50.0);
    record.temp.day = i64::MAX;
    record.humidity = i64::MAX;
    record.clouds = i64::MIN;
    let hour = HourlyData::from_daily_synthesized(&record, 0, 12);
    assert_eq!(hour.temp_c, i64::MAX);
    assert_eq!(hour.rh, fx(100.0));
    assert_eq!(hour.cloud, 0);
}

#[test]
fn coordinates_are_valid_on_the_globe() {
    assert!(is_valid_coordinates(0, 0));
    assert!(is_valid_coordinates(fx(90.0), fx(180.0)));
    assert!(is_valid_coordinates(fx(-90.0), fx(-180.0)));
    assert!(!is_valid_coordinates(fx(90.0) + 1, 0));
    assert!(!is_valid_coordinates(0, fx(-180.0) - 1));
}

#[test]
fn fetch_parses_on_200_and_fails_on_other_statuses() {
    assert_eq!(fetch_step(200, 0, 1000, 0), FetchStep::Parse);
    assert_eq!(fetch_step(200, 9, 1000, 0), FetchStep::Parse);
    assert_eq!(fetch_step(404, 0, 1000, 0), FetchStep::Fail);
    assert_eq!(fetch_step(500, 3, 1000, 0), FetchStep::Fail);
}

#[test]
fn fetch_backs_off_on_429_up_to_three_retries() {
    assert_eq!(
        fetch_step(429, 0, 1000, 0),
        FetchStep::Wait { delay_ms: 1000, retries: 1, next_delay_ms: 2000 }
    );
    assert_eq!(
        fetch_step(429, 1, 2000, fx(0.5)),
        FetchStep::Wait { delay_ms: 2000, retries: 2, next_delay_ms: 4500 }
    );
    assert_eq!(
        fetch_step(429, 2, 1000, fx(1.0)),
        FetchStep::Wait { delay_ms: 1000, retries: 3, next_delay_ms: 2500 }
    );
    assert_eq!(fetch_step(429, 3, 2500, 0), FetchStep::RateLimited { retry_after_secs: 2 });
    assert_eq!(fetch_step(429, 7, 999, 0), FetchStep::RateLimited { retry_after_secs: 0 });
}

#[test]
fn fetch_reads_jitter_as_a_fraction_of_one_and_saturates() {
    assert_eq!(fetch_step(429, 0, 1000, fx(-3.0)), fetch_step(429, 0, 1000, 0));
    assert_eq!(fetch_step(429, 0, 1000, fx(3.0)), fetch_step(429, 0, 1000, fx(1.0)));
    assert_eq!(
        fetch_step(429, 0, u64::MAX, 0),
        FetchStep::Wait { delay_ms: u64::MAX, retries: 1, next_delay_ms: u64::MAX }
    );
}

#[test]
fn http_error_text_quotes_status_and_body() {
    assert_eq!(http_error_text("404 Not Found", "no such city"), "HTTP 404 Not Found: no such city");
    assert_eq!(http_error_text("", ""), "HTTP : ");
}

use laundry_optimizer::clock::Timestamp;
use laundry_optimizer::forecast::merge::WindowData;
use laundry_optimizer::routes::{
    default_tips, describe_conditions, describe_preferences, explanation_factors,
    explanation_tips, failure_status, fallback_tips_text, feedback_weather, forecast_hours,
    geocode_limit, geocode_mode, max_windows, rank_drying_windows, rank_windows, recommend,
    report_window, retry_step, split_tips, summary_weather, window_hours, AttemptOutcome,
    DryingWindow, GeocodeMode, RetryStep, WeatherConditions, WeatherSummary,
};
use laundry_optimizer::scoring::{calculate_drying_score, DryingWeights, WeatherFeatures};

fn fx(value: f64) -> i64 {
    (value * 1_000_000.0).round() as i64
}

fn weather(temp_c: f64, cloud: f64, rain_p: f64, rain_mm: f64) -> WeatherFeatures {
    WeatherFeatures {
        temp_c: fx(temp_c),
        rh: fx(60.0),
        wind_ms: fx(2.0),
        cloud: fx(cloud),
        rain_p: fx(rain_p),
        rain_mm: fx(rain_mm),
    }
}

fn window(start: i64, weather: WeatherFeatures) -> WindowData {
    WindowData {
        id: format!("window_{}_3", start),
        start_time: Timestamp { secs: start, offset_secs: 25_200 },
        end_time: Timestamp { secs: start + 3 * 3600, offset_secs: 25_200 },
        weather,
        step_hours: 3,
    }
}

fn report(name: &str, score: i64) -> DryingWindow {
    let mut made = report_window(&window(0, weather(25.0, 0.5, 0.0, 0.0)), 3);
    made.id = name.to_string();
    made.score.score = score;
    made
}

fn names(reports: &[DryingWindow]) -> Vec<String> {
    reports.iter().map(|r| r.id.clone()).collect()
}

#[test]
fn request_numbers_have_defaults_and_caps() {
    assert_eq!(forecast_hours(None), 48);
    assert_eq!(forecast_hours(Some(12)), 12);
    assert_eq!(forecast_hours(Some(168)), 168);
    assert_eq!(forecast_hours(Some(169)), 168);
    assert_eq!(forecast_hours(Some(0)), 0);
    assert_eq!(window_hours(None), 3);
    assert_eq!(window_hours(Some(13)), 12);
    assert_eq!(window_hours(Some(6)), 6);
    assert_eq!(max_windows(None), 10);
    assert_eq!(max_windows(Some(u32::MAX)), 20);
    assert_eq!(max_windows(Some(1)), 1);
    assert_eq!(geocode_limit(None), 5);
    assert_eq!(geocode_limit(Some(11)), 10);
}

#[test]
fn conditions_are_named_by_rain_then_cloud() {
    assert_eq!(describe_conditions(&weather(25.0, 0.5, 0.0, 0.11)), "Rainy");
    assert_eq!(describe_conditions(&weather(25.0, 0.5, 0.0, 0.1)), "Sunny");
    assert_eq!(describe_conditions(&weather(25.0, 85.0, 0.0, 0.0)), "Cloudy");
    assert_eq!(describe_conditions(&weather(25.0, 80.0, 0.0, 0.0)), "Partly Cloudy");
    assert_eq!(describe_conditions(&weather(25.0, 30.0, 0.0, 0.0)), "Partly Cloudy");
    assert_eq!(describe_conditions(&weather(25.0, 29.9, 0.0, 0.0)), "Sunny");
}

#[test]
fn scores_are_put_into_words() {
    assert_eq!(recommend(fx(0.81)), "Excellent drying conditions!");
    assert_eq!(recommend(fx(0.8)), "Good drying conditions");
    assert_eq!(recommend(fx(0.61)), "Good drying conditions");
    assert_eq!(recommend(fx(0.6)), "Fair drying conditions");
    assert_eq!(recommend(fx(0.41)), "Fair drying conditions");
    assert_eq!(recommend(fx(0.4)), "Poor drying conditions");
    assert_eq!(recommend(fx(-1.0)), "Poor drying conditions");
}

#[test]
fn report_scores_a_window_without_its_rain_probability() {
    let rainy = weather(25.0, 0.5, 0.9, 0.1);
    let made = report_window(&window(1_699_999_200, rainy), 5);
    assert_eq!(made.id, "window_1699999200_5");
    assert_eq!(made.start_time, Timestamp { secs: 1_699_999_200, offset_secs: 0 });
    assert_eq!(made.end_time, Timestamp { secs: 1_699_999_200 + 3 * 3600, offset_secs: 0 });
    assert_eq!(made.duration_hours, 5);
    let mut scored = rainy;
    scored.rain_p = 0;
    assert_eq!(made.score, calculate_drying_score(&scored, &DryingWeights::default()));
    assert!(!made.score.unsafe_window);
    assert_eq!(made.score.score, 635_201);
    assert_eq!(made.weather_summary.avg_temp_c, fx(25.0));
    assert_eq!(made.weather_summary.avg_humidity, fx(60.0));
    assert_eq!(made.weather_summary.avg_wind_ms, fx(2.0));
    assert_eq!(made.weather_summary.total_rain_mm, fx(0.1));
    assert_eq!(made.weather_summary.conditions, "Sunny");
    assert_eq!(made.recommendation, "Good drying conditions");
}

#[test]
fn report_vetoes_a_window_by_its_rain_total() {
    let made = report_window(&window(0, weather(25.0, 0.5, 0.0, 0.21)), 3);
    assert!(made.score.unsafe_window);
    assert_eq!(made.score.score, fx(-1.0));
    assert_eq!(made.weather_summary.conditions, "Rainy");
    assert_eq!(made.recommendation, "Poor drying conditions");
}

#[test]
fn ranking_orders_by_falling_score_and_keeps_ties_in_order() {
    let reports = vec![
        report("a", 5),
        report("b", 9),
        report("c", 5),
        report("d", -1),
        report("e", 9),
        report("f", 7),
    ];
    assert_eq!(names(&rank_windows(reports.clone(), 10)), ["b", "e", "f", "a", "c", "d"]);
    assert_eq!(names(&rank_windows(reports.clone(), 6)), ["b", "e", "f", "a", "c", "d"]);
    assert_eq!(names(&rank_windows(reports.clone(), 3)), ["b", "e", "f"]);
    assert_eq!(names(&rank_windows(reports, 0)), Vec::<String>::new());
    assert_eq!(names(&rank_windows(Vec::new(), 3)), Vec::<String>::new());
}

#[test]
fn ranking_windows_scores_them_first() {
    let windows = vec![
        window(0, weather(16.0, 0.5, 0.0, 0.0)),
        window(10_800, weather(25.0, 0.5, 0.0, 0.0)),
        window(21_600, weather(25.0, 0.5, 0.0, 0.3)),
        window(32_400, weather(29.0, 0.1, 0.0, 0.0)),
    ];
    let top = rank_drying_windows(&windows, 3, 3);
    assert_eq!(names(&top), ["window_32400_3", "window_10800_3", "window_0_3"]);
    assert!(top[0].score.score > top[1].score.score && top[1].score.score > top[2].score.score);
    let all = rank_drying_windows(&windows, 3, 20);
    assert_eq!(all.len(), 4);
    assert_eq!(all[3].id, "window_21600_3");
    assert!(all[3].score.unsafe_window);
}

#[test]
fn feedback_weather_fills_in_what_is_missing() {
    assert_eq!(
        feedback_weather(None),
        WeatherFeatures {
            temp_c: fx(20.0),
            rh: fx(50.0),
            wind_ms: fx(2.0),
            cloud: fx(50.0),
            rain_p: 0,
            rain_mm: 0,
        }
    );
    let partial = WeatherConditions { temp_c: Some(fx(31.0)), humidity: None, wind_ms: None, rain_mm: Some(fx(0.4)) };
    assert_eq!(
        feedback_weather(Some(&partial)),
        WeatherFeatures {
            temp_c: fx(31.0),
            rh: fx(50.0),
            wind_ms: fx(2.0),
            cloud: fx(50.0),
            rain_p: fx(0.8),
            rain_mm: fx(0.4),
        }
    );
    let full = WeatherConditions { temp_c: Some(1), humidity: Some(2), wind_ms: Some(3), rain_mm: Some(0) };
    assert_eq!(
        feedback_weather(Some(&full)),
        WeatherFeatures { temp_c: 1, rh: 2, wind_ms: 3, cloud: fx(50.0), rain_p: 0, rain_mm: 0 }
    );
}

#[test]
fn summary_weather_assumes_rain_where_rain_fell() {
    let summary = WeatherSummary {
        avg_temp_c: fx(24.0),
        avg_humidity: fx(70.0),
        avg_wind_ms: fx(1.5),
        total_rain_mm: 1,
        conditions: "Sunny".to_string(),
    };
    assert_eq!(
        summary_weather(&summary),
        WeatherFeatures {
            temp_c: fx(24.0),
            rh: fx(70.0),
            wind_ms: fx(1.5),
            cloud: fx(50.0),
            rain_p: fx(0.8),
            rain_mm: 1,
        }
    );
    let dry = WeatherSummary { total_rain_mm: 0, ..summary };
    assert_eq!(summary_weather(&dry).rain_p, 0);
}

#[test]
fn retries_follow_rate_limits_with_doubling_delays() {
    assert_eq!(retry_step(AttemptOutcome::Answered, 0, 3, 100), RetryStep::Deliver);
    assert_eq!(retry_step(AttemptOutcome::Failed, 0, 3, 100), RetryStep::GiveUp);
    assert_eq!(
        retry_step(AttemptOutcome::RateLimited, 0, 3, 100),
        RetryStep::Wait { delay_ms: 100, retries: 1, next_delay_ms: 200 }
    );
    assert_eq!(
        retry_step(AttemptOutcome::RateLimited, 2, 3, 400),
        RetryStep::Wait { delay_ms: 400, retries: 3, next_delay_ms: 800 }
    );
    assert_eq!(retry_step(AttemptOutcome::RateLimited, 3, 3, 800), RetryStep::GiveUp);
    assert_eq!(retry_step(AttemptOutcome::RateLimited, 0, 0, 100), RetryStep::GiveUp);
    assert_eq!(
        retry_step(AttemptOutcome::RateLimited, 0, 1, u64::MAX),
        RetryStep::Wait { delay_ms: u64::MAX, retries: 1, next_delay_ms: u64::MAX }
    );
}

#[test]
fn failures_map_to_http_statuses() {
    assert_eq!(failure_status(true), 429);
    assert_eq!(failure_status(false), 500);
}

#[test]
fn tips_lists_are_fixed() {
    assert_eq!(
        default_tips(),
        [
            "Check weather conditions before hanging clothes",
            "Avoid drying during rain or high humidity",
            "Wind helps with faster drying"
        ]
    );
    assert_eq!(
        explanation_tips(),
        [
            "Hang clothes in well-ventilated areas",
            "Avoid direct sunlight for delicate fabrics",
            "Shake out clothes before hanging"
        ]
    );
}

#[test]
fn factors_are_listed_with_their_units() {
    let observed = WeatherFeatures {
        temp_c: fx(25.04),
        rh: fx(60.05),
        wind_ms: fx(3.0),
        cloud: fx(0.3),
        rain_p: fx(0.1),
        rain_mm: fx(0.25),
    };
    assert_eq!(
        explanation_factors(&observed, fx(0.6735)),
        [
            "Temperature: 25.0°C",
            "Humidity: 60.1%",
            "Wind: 3.0 m/s",
            "Rain: 0.3 mm",
            "Drying Score: 0.67"
        ]
    );
    assert_eq!(explanation_factors(&observed, fx(-0.005))[4], "Drying Score: -0.01");
    assert_eq!(explanation_factors(&observed, fx(-0.004))[4], "Drying Score: -0.00");
}

#[test]
fn preferences_are_put_in_one_line() {
    assert_eq!(
        describe_preferences(Some(4), Some(fx(25.0)), Some(fx(62.5)), None),
        "Drying hours: Some(4), Min temp: Some(25.0), Max humidity: Some(62.5), Avoid rain: None"
    );
    assert_eq!(
        describe_preferences(None, Some(fx(-0.5)), None, Some(fx(0.3))),
        "Drying hours: None, Min temp: Some(-0.5), Max humidity: None, Avoid rain: Some(0.3)"
    );
    assert_eq!(
        describe_preferences(Some(-2), Some(0), Some(1), Some(fx(1e6))),
        "Drying hours: Some(-2), Min temp: Some(0.0), Max humidity: Some(0.000001), Avoid rain: Some(1000000.0)"
    );
}

#[test]
fn tips_are_split_at_full_stops_followed_by_a_space() {
    assert_eq!(split_tips("One. Two. Three."), ["One", "Two", "Three."]);
    assert_eq!(split_tips("No stop"), ["No stop"]);
    assert_eq!(split_tips(""), [""]);
    assert_eq!(split_tips(". "), ["", ""]);
    assert_eq!(split_tips("a. . b.  c. "), ["a", "", "b", " c", ""]);
    assert_eq!(split_tips("a.b .c"), ["a.b .c"]);
    assert_eq!(
        split_tips(&fallback_tips_text()),
        [
            "Check weather conditions before hanging clothes",
            "Avoid drying during rain or high humidity",
            "Wind helps with faster drying."
        ]
    );
}

#[test]
fn place_search_goes_by_coordinates_first() {
    assert_eq!(geocode_mode(true, Some(1), Some(2)), GeocodeMode::Reverse { lat: 1, lon: 2 });
    assert_eq!(geocode_mode(false, Some(1), Some(2)), GeocodeMode::Reverse { lat: 1, lon: 2 });
    assert_eq!(geocode_mode(true, Some(1), None), GeocodeMode::Direct);
    assert_eq!(geocode_mode(true, None, Some(2)), GeocodeMode::Direct);
    assert_eq!(geocode_mode(true, None, None), GeocodeMode::Direct);
    assert_eq!(geocode_mode(false, None, Some(2)), GeocodeMode::Invalid);
    assert_eq!(geocode_mode(false, None, None), GeocodeMode::Invalid);
}

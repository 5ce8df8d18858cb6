//! What the service answers, and the decisions behind its answers: how
//! many hours and windows a request gets, how a window is described, and
//! which windows are the best.

use vstd::prelude::*;
use vstd::string::StringExecFns;
use crate::clock::Timestamp;
use crate::forecast::merge::{window_id, WindowData};
use crate::scoring::{
    calculate_drying_score, is_unsafe, score_spec, DryingScore, DryingWeights, WeatherFeatures,
    normalize_spec, vpd_spec,
};
use crate::text::{
    chars_of, decimal, decimal_text, fixed_text, pieces_view, push_decimal, push_decimal_text,
    push_fixed, split_on_text, split_text, text_of,
};

verus! {

/// An explanation of a recommendation, with the factors behind it and
/// tips.
#[derive(Debug, Clone)]
pub struct ExplainResponse {
    pub explanation: String,
    pub factors: Vec<String>,
    pub tips: Vec<String>,
}

/// The weather of a window in short.
#[derive(Debug, Clone)]
pub struct WeatherSummary {
    pub avg_temp_c: i64,
    pub avg_humidity: i64,
    pub avg_wind_ms: i64,
    pub total_rain_mm: i64,
    pub conditions: String,
}

/// A scored window as the service reports it.
#[derive(Debug, Clone)]
pub struct DryingWindow {
    pub id: String,
    pub start_time: Timestamp,
    pub end_time: Timestamp,
    pub duration_hours: u32,
    pub score: DryingScore,
    pub weather_summary: WeatherSummary,
    pub recommendation: String,
}

/// A request's number, or `default` where it gives none, but at most
/// `cap`.
pub open spec fn capped_or(requested: Option<u32>, default: u32, cap: u32) -> u32 {
    let wanted = match requested {
        Some(n) => n,
        None => default,
    };
    if wanted < cap { wanted } else { cap }
}

fn capped(requested: Option<u32>, default: u32, cap: u32) -> (n: u32)
    ensures
        n == capped_or(requested, default, cap),
{
    let wanted = match requested {
        Some(n) => n,
        None => default,
    };
    if wanted < cap { wanted } else { cap }
}

/// Hours of forecast that a request gets: 48 by default, at most 168.
pub fn forecast_hours(requested: Option<u32>) -> (hours: u32)
    ensures
        hours == capped_or(requested, 48, 168),
{
    capped(requested, 48, 168)
}

/// Width of the windows that a request gets: 3 hours by default, at most
/// 12.
pub fn window_hours(requested: Option<u32>) -> (hours: u32)
    ensures
        hours == capped_or(requested, 3, 12),
{
    capped(requested, 3, 12)
}

/// Number of windows that a request gets: 10 by default, at most 20.
pub fn max_windows(requested: Option<u32>) -> (count: u32)
    ensures
        count == capped_or(requested, 10, 20),
{
    capped(requested, 10, 20)
}

/// Number of places that a geocoding request gets: 5 by default, at most
/// 10.
pub fn geocode_limit(requested: Option<u32>) -> (count: u32)
    ensures
        count == capped_or(requested, 5, 10),
{
    capped(requested, 5, 10)
}

/// How the sky of a window is described: `Rainy` above 0.1 mm of rain,
/// else `Cloudy` above a cloud value of 80, `Sunny` below one of 30, and
/// `Partly Cloudy` between.
pub open spec fn conditions_text(weather: WeatherFeatures) -> Seq<char> {
    if weather.rain_mm > 100_000 {
        "Rainy"@
    } else if weather.cloud > 80_000_000 {
        "Cloudy"@
    } else if weather.cloud < 30_000_000 {
        "Sunny"@
    } else {
        "Partly Cloudy"@
    }
}

/// Describes the sky of a window.
pub fn describe_conditions(weather: &WeatherFeatures) -> (text: String)
    ensures
        text@ == conditions_text(*weather),
{
    if weather.rain_mm > 100_000 {
        String::from_str("Rainy")
    } else if weather.cloud > 80_000_000 {
        String::from_str("Cloudy")
    } else if weather.cloud < 30_000_000 {
        String::from_str("Sunny")
    } else {
        String::from_str("Partly Cloudy")
    }
}

/// The verdict on a score: excellent above 0.8, good above 0.6, fair above
/// 0.4, else poor.
pub open spec fn recommendation_text(score: int) -> Seq<char> {
    if score > 800_000 {
        "Excellent drying conditions!"@
    } else if score > 600_000 {
        "Good drying conditions"@
    } else if score > 400_000 {
        "Fair drying conditions"@
    } else {
        "Poor drying conditions"@
    }
}

/// Puts a score into words.
pub fn recommend(score: i64) -> (text: String)
    ensures
        text@ == recommendation_text(score as int),
{
    if score > 800_000 {
        String::from_str("Excellent drying conditions!")
    } else if score > 600_000 {
        String::from_str("Good drying conditions")
    } else if score > 400_000 {
        String::from_str("Fair drying conditions")
    } else {
        String::from_str("Poor drying conditions")
    }
}

/// The weather that a window is scored on: its aggregated weather with the
/// rain probability left out, so that only the rain total can veto it.
pub open spec fn scored_weather(weather: WeatherFeatures) -> WeatherFeatures {
    WeatherFeatures {
        temp_c: weather.temp_c,
        rh: weather.rh,
        wind_ms: weather.wind_ms,
        cloud: weather.cloud,
        rain_p: 0,
        rain_mm: weather.rain_mm,
    }
}

/// `report` is the report on `window` for a request of `hours`-hour
/// windows: scored under the initial weights, timed in UTC, summarised and
/// put into words.
pub open spec fn is_report_of(report: DryingWindow, window: WindowData, hours: u32) -> bool {
    let weather = scored_weather(window.weather);
    &&& report.id@ == window_id(window.start_time.secs as int, hours as int)
    &&& report.start_time == Timestamp { secs: window.start_time.secs, offset_secs: 0 }
    &&& report.end_time == Timestamp { secs: window.end_time.secs, offset_secs: 0 }
    &&& report.duration_hours == hours
    &&& report.score.score == score_spec(weather, DryingWeights::initial())
    &&& report.score.unsafe_window == is_unsafe(weather)
    &&& report.score.features == normalize_spec(weather)
    &&& report.score.raw == weather
    &&& report.score.vpd_kpa == vpd_spec(weather.temp_c as int, weather.rh as int)
    &&& report.weather_summary.avg_temp_c == window.weather.temp_c
    &&& report.weather_summary.avg_humidity == window.weather.rh
    &&& report.weather_summary.avg_wind_ms == window.weather.wind_ms
    &&& report.weather_summary.total_rain_mm == window.weather.rain_mm
    &&& report.weather_summary.conditions@ == conditions_text(window.weather)
    &&& report.recommendation@ == recommendation_text(report.score.score as int)
}

/// Scores one window and writes its report.
pub fn report_window(window: &WindowData, hours: u32) -> (report: DryingWindow)
    ensures
        is_report_of(report, *window, hours),
{
    let features = WeatherFeatures {
        temp_c: window.weather.temp_c,
        rh: window.weather.rh,
        wind_ms: window.weather.wind_ms,
        cloud: window.weather.cloud,
        rain_p: 0,
        rain_mm: window.weather.rain_mm,
    };
    let weights = DryingWeights::default();
    let score = calculate_drying_score(&features, &weights);
    let mut id = String::from_str("window_");
    push_decimal(&mut id, window.start_time.secs);
    id.append("_");
    push_decimal(&mut id, hours as i64);
    DryingWindow {
        id,
        start_time: Timestamp { secs: window.start_time.secs, offset_secs: 0 },
        end_time: Timestamp { secs: window.end_time.secs, offset_secs: 0 },
        duration_hours: hours,
        score,
        weather_summary: WeatherSummary {
            avg_temp_c: window.weather.temp_c,
            avg_humidity: window.weather.rh,
            avg_wind_ms: window.weather.wind_ms,
            total_rain_mm: window.weather.rain_mm,
            conditions: describe_conditions(&window.weather),
        },
        recommendation: recommend(score.score),
    }
}

/// First position at or after `from` whose report scores below `score`;
/// the number of reports where there is none.
pub open spec fn first_lower(reports: Seq<DryingWindow>, score: int, from: int) -> int
    decreases reports.len() - from,
{
    if from < 0 || from >= reports.len() || reports[from].score.score < score {
        from
    } else {
        first_lower(reports, score, from + 1)
    }
}

/// The reports ordered by score, best first; reports of equal score keep
/// their order.
pub open spec fn ranked(reports: Seq<DryingWindow>) -> Seq<DryingWindow>
    decreases reports.len(),
{
    if reports.len() == 0 {
        Seq::empty()
    } else {
        let front = ranked(reports.drop_last());
        front.insert(first_lower(front, reports.last().score.score as int, 0), reports.last())
    }
}

/// The best `limit` reports, best first.
pub open spec fn best(reports: Seq<DryingWindow>, limit: nat) -> Seq<DryingWindow> {
    let all = ranked(reports);
    if all.len() <= limit { all } else { all.take(limit as int) }
}

/// Scores never rise along `reports`.
pub open spec fn is_descending(reports: Seq<DryingWindow>) -> bool {
    forall|i: int, j: int|
        0 <= i < j < reports.len() ==> reports[i].score.score >= reports[j].score.score
}

/// The position that `first_lower` finds splits the reports: those before
/// it score at least `score`, and the one at it, if any, scores below.
pub proof fn lemma_first_lower(reports: Seq<DryingWindow>, score: int, from: int)
    requires
        0 <= from <= reports.len(),
    ensures
        from <= first_lower(reports, score, from) <= reports.len(),
        forall|k: int|
            from <= k < first_lower(reports, score, from) ==> reports[k].score.score >= score,
        first_lower(reports, score, from) < reports.len() ==> reports[first_lower(
            reports,
            score,
            from,
        )].score.score < score,
    decreases reports.len() - from,
{
    if from < reports.len() && reports[from].score.score >= score {
        lemma_first_lower(reports, score, from + 1);
    }
}

/// Ranking keeps every report, exactly as often as it occurs, and orders
/// them by falling score.
pub proof fn lemma_ranked_is_sorted_permutation(reports: Seq<DryingWindow>)
    ensures
        ranked(reports).len() == reports.len(),
        ranked(reports).to_multiset() == reports.to_multiset(),
        is_descending(ranked(reports)),
    decreases reports.len(),
{
    broadcast use vstd::seq_lib::group_to_multiset_ensures;

    if reports.len() == 0 {
    } else {
        let front = ranked(reports.drop_last());
        let x = reports.last();
        lemma_ranked_is_sorted_permutation(reports.drop_last());
        lemma_first_lower(front, x.score.score as int, 0);
        let p = first_lower(front, x.score.score as int, 0);
        let after = front.insert(p, x);
        assert(reports == reports.drop_last().push(x));
        assert(reports.to_multiset() == reports.drop_last().to_multiset().insert(x)) by {
            vstd::seq_lib::to_multiset_build(reports.drop_last(), x);
        }
        assert(after.to_multiset() == front.to_multiset().insert(x)) by {
            vstd::seq_lib::to_multiset_insert(front, p, x);
        }
        assert(is_descending(after)) by {
            assert forall|i: int, j: int| 0 <= i < j < after.len() implies after[i].score.score
                >= after[j].score.score by {
                if i < p && j > p {
                    assert(after[i] == front[i]);
                    assert(after[j] == front[j - 1]);
                } else if i < p && j < p {
                    assert(after[i] == front[i]);
                    assert(after[j] == front[j]);
                } else if i > p {
                    assert(after[i] == front[i - 1]);
                    assert(after[j] == front[j - 1]);
                } else if i == p {
                    assert(after[j] == front[j - 1]);
                    assert(front[p].score.score < x.score.score);
                    assert(p <= j - 1);
                } else {
                    assert(j == p);
                    assert(after[i] == front[i]);
                }
            }
        }
    }
}

/// Orders reports by score, best first, and keeps the best `limit`.
/// Reports of equal score keep their order.
pub fn rank_windows(reports: Vec<DryingWindow>, limit: usize) -> (top: Vec<DryingWindow>)
    ensures
        top@ == best(reports@, limit as nat),
        top@.len() == if reports@.len() <= limit { reports@.len() } else { limit as nat },
        is_descending(top@),
        reports@.len() <= limit ==> top@.to_multiset() == reports@.to_multiset(),
{
    proof {
        lemma_ranked_is_sorted_permutation(reports@);
    }
    let mut sorted: Vec<DryingWindow> = Vec::new();
    for report in it: reports
        invariant
            it.seq() == reports@,
            sorted@ == ranked(reports@.take(it.index() as int)),
    {
        let ghost front = sorted@;
        let mut position: usize = 0;
        while position < sorted.len() && sorted[position].score.score >= report.score.score
            invariant
                position <= sorted.len(),
                sorted@ == front,
                first_lower(front, report.score.score as int, 0) == first_lower(
                    front,
                    report.score.score as int,
                    position as int,
                ),
            decreases sorted.len() - position,
        {
            position = position + 1;
        }
        proof {
            let next = reports@.take(it.index() + 1);
            assert(next.drop_last() == reports@.take(it.index() as int));
            assert(next.last() == report);
        }
        sorted.insert(position, report);
    }
    assert(reports@.take(reports@.len() as int) == reports@);
    sorted.truncate(limit);
    sorted
}

/// Scores the windows of a request and reports the best of them, best
/// first.
pub fn rank_drying_windows(windows: &Vec<WindowData>, hours: u32, limit: u32) -> (top: Vec<
    DryingWindow,
>)
    ensures
        exists|reports: Seq<DryingWindow>|
            {
                &&& reports.len() == windows@.len()
                &&& forall|k: int|
                    0 <= k < reports.len() ==> is_report_of(
                        #[trigger] reports[k],
                        windows@[k],
                        hours,
                    )
                &&& top@ == best(reports, limit as nat)
            },
{
    let mut reports: Vec<DryingWindow> = Vec::new();
    let mut k: usize = 0;
    while k < windows.len()
        invariant
            k <= windows.len(),
            reports.len() == k,
            forall|j: int|
                0 <= j < reports.len() ==> is_report_of(#[trigger] reports@[j], windows@[j], hours),
        decreases windows.len() - k,
    {
        reports.push(report_window(&windows[k], hours));
        k = k + 1;
    }
    let ghost all = reports@;
    let top = rank_windows(reports, limit as usize);
    assert(all.len() == windows@.len() && top@ == best(all, limit as nat));
    top
}

/// Weather that a user reports with feedback; any part may be missing.
#[derive(Debug, Clone, Copy, PartialEq, Eq, Structural)]
pub struct WeatherConditions {
    pub temp_c: Option<i64>,
    pub humidity: Option<i64>,
    pub wind_ms: Option<i64>,
    pub rain_mm: Option<i64>,
}

/// A reported value, or `default` where it is missing.
pub open spec fn value_or(value: Option<i64>, default: i64) -> i64 {
    match value {
        Some(v) => v,
        None => default,
    }
}

/// The rain probability assumed for a rain total: 0.8 where any rain
/// fell, else none.
pub open spec fn assumed_rain_probability(rain_mm: int) -> i64 {
    if rain_mm > 0 { 800_000 } else { 0 }
}

/// The weather that feedback is analysed against: what the user reported,
/// with 20 degrees, 50 % humidity, 2 m/s of wind and no rain for what is
/// missing, a cloud value of 50, and the rain probability assumed for the
/// rain total.
pub open spec fn feedback_weather_spec(conditions: Option<WeatherConditions>) -> WeatherFeatures {
    match conditions {
        Some(reported) => WeatherFeatures {
            temp_c: value_or(reported.temp_c, 20_000_000),
            rh: value_or(reported.humidity, 50_000_000),
            wind_ms: value_or(reported.wind_ms, 2_000_000),
            cloud: 50_000_000,
            rain_p: assumed_rain_probability(value_or(reported.rain_mm, 0) as int),
            rain_mm: value_or(reported.rain_mm, 0),
        },
        None => WeatherFeatures {
            temp_c: 20_000_000,
            rh: 50_000_000,
            wind_ms: 2_000_000,
            cloud: 50_000_000,
            rain_p: 0,
            rain_mm: 0,
        },
    }
}

fn or_default(value: Option<i64>, default: i64) -> (v: i64)
    ensures
        v == value_or(value, default),
{
    match value {
        Some(v) => v,
        None => default,
    }
}

/// Completes the weather that came with a piece of feedback.
pub fn feedback_weather(conditions: Option<&WeatherConditions>) -> (weather: WeatherFeatures)
    ensures
        weather == feedback_weather_spec(
            match conditions {
                Some(reported) => Some(*reported),
                None => None,
            },
        ),
{
    match conditions {
        Some(reported) => {
            let rain_mm = or_default(reported.rain_mm, 0);
            WeatherFeatures {
                temp_c: or_default(reported.temp_c, 20_000_000),
                rh: or_default(reported.humidity, 50_000_000),
                wind_ms: or_default(reported.wind_ms, 2_000_000),
                cloud: 50_000_000,
                rain_p: if rain_mm > 0 { 800_000 } else { 0 },
                rain_mm,
            }
        },
        None => WeatherFeatures {
            temp_c: 20_000_000,
            rh: 50_000_000,
            wind_ms: 2_000_000,
            cloud: 50_000_000,
            rain_p: 0,
            rain_mm: 0,
        },
    }
}

/// The weather that a summary stands for when it is explained: its
/// values, a cloud value of 50, and the rain probability assumed for its
/// rain total.
pub open spec fn summary_weather_spec(summary: WeatherSummary) -> WeatherFeatures {
    WeatherFeatures {
        temp_c: summary.avg_temp_c,
        rh: summary.avg_humidity,
        wind_ms: summary.avg_wind_ms,
        cloud: 50_000_000,
        rain_p: assumed_rain_probability(summary.total_rain_mm as int),
        rain_mm: summary.total_rain_mm,
    }
}

/// Turns the summary of a window back into weather for an explanation.
pub fn summary_weather(summary: &WeatherSummary) -> (weather: WeatherFeatures)
    ensures
        weather == summary_weather_spec(*summary),
{
    WeatherFeatures {
        temp_c: summary.avg_temp_c,
        rh: summary.avg_humidity,
        wind_ms: summary.avg_wind_ms,
        cloud: 50_000_000,
        rain_p: if summary.total_rain_mm > 0 { 800_000 } else { 0 },
        rain_mm: summary.total_rain_mm,
    }
}

/// How an attempt to get a recommendation from the assistant ended.
#[derive(Debug, Clone, Copy, PartialEq, Eq, Structural)]
pub enum AttemptOutcome {
    /// The assistant answered.
    Answered,
    /// The assistant refused for the moment because of its rate limit.
    RateLimited,
    /// The attempt failed for another reason.
    Failed,
}

/// What to do after an attempt.
#[derive(Debug, Clone, Copy, PartialEq, Eq, Structural)]
pub enum RetryStep {
    /// Hand the answer to the caller.
    Deliver,
    /// Hand the error to the caller.
    GiveUp,
    /// Wait `delay_ms` milliseconds and try again; the attempt after that
    /// is number `retries` and waits `next_delay_ms` if it has to.
    Wait { delay_ms: u64, retries: u32, next_delay_ms: u64 },
}

/// The step after an attempt: deliver an answer; after a rate-limit
/// refusal wait and try again while fewer than `max_retries` retries were
/// made, doubling the delay each time; give up on anything else.
pub open spec fn retry_step_spec(
    outcome: AttemptOutcome,
    retries: u32,
    max_retries: u32,
    delay_ms: u64,
) -> RetryStep {
    match outcome {
        AttemptOutcome::Answered => RetryStep::Deliver,
        AttemptOutcome::RateLimited => if retries < max_retries {
            RetryStep::Wait {
                delay_ms,
                retries: (retries + 1) as u32,
                next_delay_ms: if delay_ms * 2 > u64::MAX {
                    u64::MAX
                } else {
                    (delay_ms * 2) as u64
                },
            }
        } else {
            RetryStep::GiveUp
        },
        AttemptOutcome::Failed => RetryStep::GiveUp,
    }
}

/// Decides what follows an attempt to get a recommendation.
pub fn retry_step(outcome: AttemptOutcome, retries: u32, max_retries: u32, delay_ms: u64) -> (step:
    RetryStep)
    ensures
        step == retry_step_spec(outcome, retries, max_retries, delay_ms),
{
    match outcome {
        AttemptOutcome::Answered => RetryStep::Deliver,
        AttemptOutcome::RateLimited => if retries < max_retries {
            RetryStep::Wait {
                delay_ms,
                retries: retries + 1,
                next_delay_ms: if delay_ms > u64::MAX / 2 {
                    u64::MAX
                } else {
                    delay_ms * 2
                },
            }
        } else {
            RetryStep::GiveUp
        },
        AttemptOutcome::Failed => RetryStep::GiveUp,
    }
}

/// The HTTP status that reports a failed recommendation: 429 for the rate
/// limit, 500 for anything else.
pub fn failure_status(rate_limited: bool) -> (status: u16)
    ensures
        status == if rate_limited { 429u16 } else { 500u16 },
{
    if rate_limited { 429 } else { 500 }
}

/// The tips given where no window was found.
pub fn default_tips() -> (tips: Vec<String>)
    ensures
        tips@.len() == 3,
        tips@[0]@ == "Check weather conditions before hanging clothes"@,
        tips@[1]@ == "Avoid drying during rain or high humidity"@,
        tips@[2]@ == "Wind helps with faster drying"@,
{
    let mut tips: Vec<String> = Vec::new();
    tips.push(String::from_str("Check weather conditions before hanging clothes"));
    tips.push(String::from_str("Avoid drying during rain or high humidity"));
    tips.push(String::from_str("Wind helps with faster drying"));
    tips
}

/// The five factors listed with an explanation: temperature, humidity,
/// wind and rain with one decimal place, the score with two.
pub open spec fn factor_texts(weather: WeatherFeatures, score: int) -> Seq<Seq<char>> {
    seq![
        "Temperature: "@ + fixed_text(weather.temp_c as int, 1) + "°C"@,
        "Humidity: "@ + fixed_text(weather.rh as int, 1) + "%"@,
        "Wind: "@ + fixed_text(weather.wind_ms as int, 1) + " m/s"@,
        "Rain: "@ + fixed_text(weather.rain_mm as int, 1) + " mm"@,
        "Drying Score: "@ + fixed_text(score, 2),
    ]
}

fn factor(label: &str, v: i64, places: u32, tail: &str) -> (text: String)
    requires
        places <= 6,
    ensures
        text@ == label@ + fixed_text(v as int, places as nat) + tail@,
{
    let mut text = String::from_str(label);
    push_fixed(&mut text, v, places);
    text.append(tail);
    text
}

/// Lists the factors behind the score of a window.
pub fn explanation_factors(weather: &WeatherFeatures, score: i64) -> (factors: Vec<String>)
    ensures
        Seq::new(factors@.len(), |i: int| factors@[i]@) == factor_texts(*weather, score as int),
{
    let mut factors: Vec<String> = Vec::new();
    factors.push(factor("Temperature: ", weather.temp_c, 1, "°C"));
    factors.push(factor("Humidity: ", weather.rh, 1, "%"));
    factors.push(factor("Wind: ", weather.wind_ms, 1, " m/s"));
    factors.push(factor("Rain: ", weather.rain_mm, 1, " mm"));
    factors.push(factor("Drying Score: ", score, 2, ""));
    proof {
        assert("Drying Score: "@ + fixed_text(score as int, 2) + ""@ == "Drying Score: "@
            + fixed_text(score as int, 2)) by {
            reveal_strlit("");
        }
    }
    factors
}

/// The tips given with every explanation.
pub fn explanation_tips() -> (tips: Vec<String>)
    ensures
        tips@.len() == 3,
        tips@[0]@ == "Hang clothes in well-ventilated areas"@,
        tips@[1]@ == "Avoid direct sunlight for delicate fabrics"@,
        tips@[2]@ == "Shake out clothes before hanging"@,
{
    let mut tips: Vec<String> = Vec::new();
    tips.push(String::from_str("Hang clothes in well-ventilated areas"));
    tips.push(String::from_str("Avoid direct sunlight for delicate fabrics"));
    tips.push(String::from_str("Shake out clothes before hanging"));
    tips
}

/// A whole number that may be missing: `Some(3)` or `None`.
pub open spec fn optional_count_text(value: Option<i32>) -> Seq<char> {
    match value {
        Some(n) => "Some("@ + decimal(n as int) + ")"@,
        None => "None"@,
    }
}

/// A decimal number that may be missing: `Some(25.0)` or `None`.
pub open spec fn optional_decimal_text(value: Option<i64>) -> Seq<char> {
    match value {
        Some(v) => "Some("@ + decimal_text(v as int) + ")"@,
        None => "None"@,
    }
}

/// How a user's preferences are put to the assistant.
pub open spec fn preferences_text(
    drying_hours: Option<i32>,
    min_temperature: Option<i64>,
    max_humidity: Option<i64>,
    avoid_rain_probability: Option<i64>,
) -> Seq<char> {
    "Drying hours: "@ + optional_count_text(drying_hours) + ", Min temp: "@
        + optional_decimal_text(min_temperature) + ", Max humidity: "@ + optional_decimal_text(
        max_humidity,
    ) + ", Avoid rain: "@ + optional_decimal_text(avoid_rain_probability)
}

fn push_optional_decimal(out: &mut String, value: Option<i64>)
    ensures
        final(out)@ == old(out)@ + optional_decimal_text(value),
{
    match value {
        Some(v) => {
            out.append("Some(");
            push_decimal_text(out, v);
            out.append(")");
            assert(out@ == old(out)@ + ("Some("@ + decimal_text(v as int) + ")"@));
        },
        None => {
            out.append("None");
        },
    }
}

/// Puts a user's preferences into a line for the assistant.
pub fn describe_preferences(
    drying_hours: Option<i32>,
    min_temperature: Option<i64>,
    max_humidity: Option<i64>,
    avoid_rain_probability: Option<i64>,
) -> (text: String)
    ensures
        text@ == preferences_text(
            drying_hours,
            min_temperature,
            max_humidity,
            avoid_rain_probability,
        ),
{
    let mut text = String::from_str("Drying hours: ");
    match drying_hours {
        Some(n) => {
            text.append("Some(");
            push_decimal(&mut text, n as i64);
            text.append(")");
            assert(text@ == "Drying hours: "@ + ("Some("@ + decimal(n as int) + ")"@));
        },
        None => {
            text.append("None");
        },
    }
    text.append(", Min temp: ");
    push_optional_decimal(&mut text, min_temperature);
    text.append(", Max humidity: ");
    push_optional_decimal(&mut text, max_humidity);
    text.append(", Avoid rain: ");
    push_optional_decimal(&mut text, avoid_rain_probability);
    text
}

/// Splits the assistant's tips into sentences: the pieces between each
/// full stop that a space follows.
pub fn split_tips(text: &str) -> (tips: Vec<String>)
    ensures
        Seq::new(tips@.len(), |i: int| tips@[i]@) == split_on_text(text@, ". "@),
{
    let letters = chars_of(text);
    let separator = chars_of(". ");
    proof {
        reveal_strlit(". ");
    }
    let pieces = split_text(&letters, &separator);
    let mut tips: Vec<String> = Vec::new();
    let mut i: usize = 0;
    while i < pieces.len()
        invariant
            i <= pieces.len(),
            tips@.len() == i,
            forall|k: int| 0 <= k < i ==> (#[trigger] tips@[k])@ == pieces@[k]@,
        decreases pieces.len() - i,
    {
        let piece = &pieces[i];
        tips.push(text_of(piece, 0, piece.len()));
        assert(piece@.subrange(0, piece@.len() as int) == piece@);
        i = i + 1;
    }
    assert(Seq::new(tips@.len(), |i: int| tips@[i]@) == pieces_view(pieces@));
    tips
}

/// The tips given where the assistant gives none.
pub fn fallback_tips_text() -> (text: String)
    ensures
        text@
            == "Check weather conditions before hanging clothes. Avoid drying during rain or high humidity. Wind helps with faster drying."@,
{
    String::from_str(
        "Check weather conditions before hanging clothes. Avoid drying during rain or high humidity. Wind helps with faster drying.",
    )
}

/// What a place search asks for.
#[derive(Debug, Clone, Copy, PartialEq, Eq, Structural)]
pub enum GeocodeMode {
    /// The name of the place at the given coordinates.
    Reverse { lat: i64, lon: i64 },
    /// The coordinates of the place of the given name.
    Direct,
    /// Nothing that can be answered.
    Invalid,
}

/// Reads a place search: by coordinates where both are given, else by
/// name where one is given, else invalid.
pub fn geocode_mode(has_query: bool, lat: Option<i64>, lon: Option<i64>) -> (mode: GeocodeMode)
    ensures
        mode == match (lat, lon) {
            (Some(lat), Some(lon)) => GeocodeMode::Reverse { lat, lon },
            _ => if has_query { GeocodeMode::Direct } else { GeocodeMode::Invalid },
        },
{
    match (lat, lon) {
        (Some(lat), Some(lon)) => GeocodeMode::Reverse { lat, lon },
        _ => if has_query { GeocodeMode::Direct } else { GeocodeMode::Invalid },
    }
}

} // verus!

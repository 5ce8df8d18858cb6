//! Conversion of provider records into hourly records.

use vstd::prelude::*;
use crate::clock::{
    local_hour_replaced, normalize_offset, normalized_offset, instant_or_epoch, read_instant,
    replace_local_hour, Timestamp, DEFAULT_OFFSET_SECS, HOUR_SECS,
};
use crate::fixed::{clamp_spec, div_floor, lemma_div_bounds, saturate, saturate_i128, SCALE};
use crate::forecast::types::{Forecast3hItem, HourlyData, OneCallDaily, OneCallHourly};
use crate::scoring::WeatherFeatures;
use crate::text::same_text;
use vstd::string::StringExecFns;

verus! {

/// The amount listed under `key` at or after position `from`, if any; the
/// first such entry counts.
pub open spec fn amount_from(entries: Seq<(String, i64)>, key: Seq<char>, from: int) -> Option<i64>
    decreases entries.len() - from,
{
    if from < 0 || from >= entries.len() {
        None
    } else if entries[from].0@ == key {
        Some(entries[from].1)
    } else {
        amount_from(entries, key, from + 1)
    }
}

/// The amount that a precipitation table lists under `key`; zero where the
/// table or the entry is missing.
pub open spec fn rain_amount(table: Option<Vec<(String, i64)>>, key: Seq<char>) -> int {
    match table {
        Some(entries) => match amount_from(entries@, key, 0) {
            Some(amount) => amount as int,
            None => 0,
        },
        None => 0,
    }
}

/// Looks up the first amount listed under `key`.
pub fn find_amount(entries: &Vec<(String, i64)>, key: &str) -> (found: Option<i64>)
    ensures
        found == amount_from(entries@, key@, 0),
{
    let mut i: usize = 0;
    while i < entries.len()
        invariant
            i <= entries.len(),
            amount_from(entries@, key@, 0) == amount_from(entries@, key@, i as int),
        decreases entries.len() - i,
    {
        if same_text(entries[i].0.as_str(), key) {
            return Some(entries[i].1);
        }
        i = i + 1;
    }
    None
}

/// Looks up the amount under `key` in a precipitation table; zero where
/// the table or the entry is missing.
pub fn read_rain_amount(table: &Option<Vec<(String, i64)>>, key: &str) -> (amount: i64)
    ensures
        amount == rain_amount(*table, key@),
{
    match table {
        Some(entries) => match find_amount(entries, key) {
            Some(amount) => amount,
            None => 0,
        },
        None => 0,
    }
}

/// What an hourly provider record says of its hour: the values as they
/// stand, cloud cover as a fraction, and the rain listed under `1h`.
pub open spec fn hourly_weather(hourly: OneCallHourly) -> WeatherFeatures {
    WeatherFeatures {
        temp_c: hourly.temp,
        rh: hourly.humidity,
        wind_ms: hourly.wind_speed,
        cloud: (hourly.clouds / 100) as i64,
        rain_p: hourly.pop,
        rain_mm: rain_amount(hourly.rain, "1h"@) as i64,
    }
}

/// What a three-hour provider record says of each of its hours: the values
/// as they stand, cloud cover as a fraction, and a third of the rain listed
/// under `3h`.
pub open spec fn tri_hourly_weather(item: Forecast3hItem) -> WeatherFeatures {
    WeatherFeatures {
        temp_c: item.main.temp,
        rh: item.main.humidity,
        wind_ms: item.wind.speed,
        cloud: (item.clouds.all / 100) as i64,
        rain_p: item.pop,
        rain_mm: (rain_amount(item.rain, "3h"@) / 3) as i64,
    }
}

/// Daylight hours run from 06:00 up to 18:00.
pub open spec fn is_daylight(hour_of_day: int) -> bool {
    6 <= hour_of_day < 18
}

/// The hour synthesised from a daily record: by day one degree warmer, five
/// points of humidity drier and 0.1 clearer than the daily mean, by night
/// the opposite; humidity and cloud cover clamped to their ranges; an
/// eighth of the day's rain probability and rain total.
pub open spec fn daily_weather(daily: OneCallDaily, hour_of_day: int) -> WeatherFeatures {
    let sign: int = if is_daylight(hour_of_day) { 1 } else { -1 };
    WeatherFeatures {
        temp_c: saturate(daily.temp.day + sign * 1_000_000) as i64,
        rh: clamp_spec(daily.humidity - sign * 5_000_000, 0, 100_000_000) as i64,
        wind_ms: daily.wind_speed,
        cloud: clamp_spec(daily.clouds / 100 - sign * 100_000, 0, SCALE as int) as i64,
        rain_p: (daily.pop / 8) as i64,
        rain_mm: ((match daily.rain {
            Some(amount) => amount as int,
            None => 0,
        }) / 8) as i64,
    }
}

/// The weather assumed for an hour that no source covers: 25 degrees, 60 %
/// humidity, 2 m/s of wind, half-covered sky, no rain.
pub open spec fn default_weather() -> WeatherFeatures {
    WeatherFeatures {
        temp_c: 25_000_000,
        rh: 60_000_000,
        wind_ms: 2_000_000,
        cloud: 500_000,
        rain_p: 0,
        rain_mm: 0,
    }
}

/// Divides a 64-bit value by a small positive constant, rounding down.
fn div_small(value: i64, divisor: i64) -> (q: i64)
    requires
        divisor > 0,
    ensures
        q == (value as int) / (divisor as int),
{
    proof {
        lemma_div_bounds(value as int, divisor as int);
    }
    div_floor(value as i128, divisor as i128) as i64
}

/// Clamps a wide value into `[lo, hi]`.
fn clamp_wide(value: i128, lo: i64, hi: i64) -> (r: i64)
    requires
        lo <= hi,
    ensures
        r == clamp_spec(value as int, lo as int, hi as int),
{
    if value < lo as i128 {
        lo
    } else if value > hi as i128 {
        hi
    } else {
        value as i64
    }
}

/// Reads the weather of an hourly provider record.
pub fn weather_of_hourly(hourly: &OneCallHourly) -> (weather: WeatherFeatures)
    ensures
        weather == hourly_weather(*hourly),
{
    WeatherFeatures {
        temp_c: hourly.temp,
        rh: hourly.humidity,
        wind_ms: hourly.wind_speed,
        cloud: div_small(hourly.clouds, 100),
        rain_p: hourly.pop,
        rain_mm: read_rain_amount(&hourly.rain, "1h"),
    }
}

/// Reads the weather that a three-hour provider record gives each hour.
pub fn weather_of_tri_hourly(item: &Forecast3hItem) -> (weather: WeatherFeatures)
    ensures
        weather == tri_hourly_weather(*item),
{
    WeatherFeatures {
        temp_c: item.main.temp,
        rh: item.main.humidity,
        wind_ms: item.wind.speed,
        cloud: div_small(item.clouds.all, 100),
        rain_p: item.pop,
        rain_mm: div_small(read_rain_amount(&item.rain, "3h"), 3),
    }
}

/// Synthesises the weather of one hour of the day from a daily record.
pub fn weather_of_daily(daily: &OneCallDaily, hour_of_day: i32) -> (weather: WeatherFeatures)
    ensures
        weather == daily_weather(*daily, hour_of_day as int),
{
    let daylight = hour_of_day >= 6 && hour_of_day < 18;
    let sign: i128 = if daylight { 1 } else { -1 };
    let rain: i64 = match daily.rain {
        Some(amount) => amount,
        None => 0,
    };
    WeatherFeatures {
        temp_c: saturate_i128(daily.temp.day as i128 + sign * 1_000_000),
        rh: clamp_wide(daily.humidity as i128 - sign * 5_000_000, 0, 100_000_000),
        wind_ms: daily.wind_speed,
        cloud: clamp_wide(div_small(daily.clouds, 100) as i128 - sign * 100_000, 0, SCALE),
        rain_p: div_small(daily.pop, 8),
        rain_mm: div_small(rain, 8),
    }
}

/// The weather assumed for an hour that no source covers.
pub fn default_weather_values() -> (weather: WeatherFeatures)
    ensures
        weather == default_weather(),
{
    WeatherFeatures {
        temp_c: 25_000_000,
        rh: 60_000_000,
        wind_ms: 2_000_000,
        cloud: 500_000,
        rain_p: 0,
        rain_mm: 0,
    }
}

/// Puts a timestamp and six weather values together.
pub fn hour_at(ts: Timestamp, weather: WeatherFeatures) -> (hour: HourlyData)
    ensures
        hour == HourlyData::at(ts, weather),
        hour.ts == ts,
        hour.weather() == weather,
{
    HourlyData {
        ts,
        temp_c: weather.temp_c,
        rh: weather.rh,
        wind_ms: weather.wind_ms,
        cloud: weather.cloud,
        rain_p: weather.rain_p,
        rain_mm: weather.rain_mm,
    }
}

impl<'a> From<&'a OneCallHourly> for HourlyData {
    /// The hour that an hourly provider record describes, shown at UTC+7.
    fn from(hourly: &'a OneCallHourly) -> (hour: HourlyData) {
        let ts = Timestamp { secs: read_instant(hourly.dt), offset_secs: DEFAULT_OFFSET_SECS };
        hour_at(ts, weather_of_hourly(hourly))
    }
}

impl<'a> vstd::std_specs::convert::FromSpecImpl<&'a OneCallHourly> for HourlyData {
    open spec fn obeys_from_spec() -> bool {
        true
    }

    open spec fn from_spec(hourly: &'a OneCallHourly) -> HourlyData {
        HourlyData::at(
            Timestamp {
                secs: instant_or_epoch(hourly.dt) as i64,
                offset_secs: DEFAULT_OFFSET_SECS,
            },
            hourly_weather(*hourly),
        )
    }
}

/// The three hours that a three-hour provider record describes: the same
/// weather at the record's instant and one and two hours after it.
pub open spec fn tri_hourly_hours(item: Forecast3hItem, timezone_offset: int) -> Seq<HourlyData> {
    Seq::new(
        3,
        |k: int|
            HourlyData::at(
                Timestamp {
                    secs: (instant_or_epoch(item.dt) + k * HOUR_SECS) as i64,
                    offset_secs: normalized_offset(timezone_offset) as i32,
                },
                tri_hourly_weather(item),
            ),
    )
}

/// Where the synthesised hour of a daily record stands: the record's
/// instant moved to the hour of the day asked for, under the caller's
/// offset; the Unix epoch at UTC where that hour cannot be formed.
pub open spec fn daily_timestamp(dt: i64, timezone_offset: int, hour_of_day: int) -> Timestamp {
    let offset = normalized_offset(timezone_offset) as i32;
    let moved = if 0 <= hour_of_day < 24 {
        local_hour_replaced(instant_or_epoch(dt) as i64, offset, hour_of_day as u32)
    } else {
        None
    };
    match moved {
        Some(secs) => Timestamp { secs, offset_secs: offset },
        None => Timestamp { secs: 0, offset_secs: 0 },
    }
}

impl HourlyData {
    /// Spreads a three-hour provider record over its three hours.
    pub fn from_forecast3h_item(item: &Forecast3hItem, timezone_offset: i32) -> (hours: Vec<
        HourlyData,
    >)
        ensures
            hours@ == tri_hourly_hours(*item, timezone_offset as int),
            hours.len() == 3,
            forall|k: int| 0 <= k < 3 ==> (#[trigger] hours[k]).ts.wf(),
    {
        let offset = normalize_offset(timezone_offset);
        let base = read_instant(item.dt);
        let weather = weather_of_tri_hourly(item);
        let mut hours: Vec<HourlyData> = Vec::new();
        let mut k: i64 = 0;
        while k < 3
            invariant
                0 <= k <= 3,
                hours.len() == k,
                base == instant_or_epoch(item.dt),
                -190_000_000_000_000 <= base <= 190_000_000_000_000,
                offset == normalized_offset(timezone_offset as int),
                weather == tri_hourly_weather(*item),
                forall|j: int|
                    0 <= j < k ==> #[trigger] hours[j] == tri_hourly_hours(
                        *item,
                        timezone_offset as int,
                    )[j],
                forall|j: int| 0 <= j < k ==> (#[trigger] hours[j]).ts.wf(),
            decreases 3 - k,
        {
            let ts = Timestamp { secs: base + k * HOUR_SECS, offset_secs: offset };
            hours.push(hour_at(ts, weather));
            k = k + 1;
        }
        assert(hours@ =~= tri_hourly_hours(*item, timezone_offset as int));
        hours
    }

    /// Synthesises one hour of the day from a daily provider record.
    pub fn from_daily_synthesized(
        daily: &OneCallDaily,
        timezone_offset: i32,
        hour_of_day: i32,
    ) -> (hour: HourlyData)
        ensures
            hour.ts == daily_timestamp(daily.dt, timezone_offset as int, hour_of_day as int),
            hour.weather() == daily_weather(*daily, hour_of_day as int),
            hour.ts.wf(),
    {
        let offset = normalize_offset(timezone_offset);
        let base = read_instant(daily.dt);
        let moved: Option<i64> = if 0 <= hour_of_day && hour_of_day < 24 {
            replace_local_hour(base, offset, hour_of_day as u32)
        } else {
            None
        };
        let ts = match moved {
            Some(secs) => Timestamp { secs, offset_secs: offset },
            None => Timestamp { secs: 0, offset_secs: 0 },
        };
        hour_at(ts, weather_of_daily(daily, hour_of_day))
    }
}

/// Coordinates on the globe: latitude within 90 degrees of the equator,
/// longitude within 180 degrees of Greenwich.
pub open spec fn coordinates_are_valid(lat: int, lon: int) -> bool {
    -90_000_000 <= lat <= 90_000_000 && -180_000_000 <= lon <= 180_000_000
}

/// Checks coordinates before they are sent to the provider.
pub fn is_valid_coordinates(lat: i64, lon: i64) -> (valid: bool)
    ensures
        valid == coordinates_are_valid(lat as int, lon as int),
{
    lat >= -90_000_000 && lat <= 90_000_000 && lon >= -180_000_000 && lon <= 180_000_000
}

/// Retries that a request to the provider may make.
pub const MAX_FETCH_RETRIES: u32 = 3;

/// Delay before the first retry, in milliseconds.
pub const FIRST_RETRY_DELAY_MS: u64 = 1_000;

/// What to do with the provider's answer to a request.
#[derive(Debug, Clone, Copy, PartialEq, Eq, Structural)]
pub enum FetchStep {
    /// Read the body as the payload.
    Parse,
    /// Report that the provider's rate limit held to the end, with the
    /// last delay in whole seconds.
    RateLimited { retry_after_secs: u64 },
    /// Wait `delay_ms` milliseconds and ask again; the request after that
    /// is retry number `retries` and waits `next_delay_ms` if it has to.
    Wait { delay_ms: u64, retries: u32, next_delay_ms: u64 },
    /// Report the status and the body as an error.
    Fail,
}

/// The delay after `delay_ms`: between 2 and 2.5 times as long, by the
/// fraction `jitter` of the half; saturated to 64 bits.
pub open spec fn backed_off(delay_ms: int, jitter: int) -> int {
    let factor = 2 * SCALE + clamp_spec(jitter, 0, SCALE as int) / 2;
    let next = (delay_ms * factor) / (SCALE as int);
    if next > u64::MAX { u64::MAX as int } else { next }
}

/// The step after an answer with HTTP status `status`: parse on 200; on
/// 429 wait and ask again with a longer delay, unless `MAX_FETCH_RETRIES`
/// retries were made already; fail on any other status.
pub open spec fn fetch_step_spec(status: u16, retries: u32, delay_ms: u64, jitter: i64) -> FetchStep {
    if status == 200 {
        FetchStep::Parse
    } else if status == 429 {
        if retries >= MAX_FETCH_RETRIES {
            FetchStep::RateLimited { retry_after_secs: delay_ms / 1_000 }
        } else {
            FetchStep::Wait {
                delay_ms,
                retries: (retries + 1) as u32,
                next_delay_ms: backed_off(delay_ms as int, jitter as int) as u64,
            }
        }
    } else {
        FetchStep::Fail
    }
}

/// Decides what follows the provider's answer. `jitter` is a random
/// fraction of one, drawn by the caller.
pub fn fetch_step(status: u16, retries: u32, delay_ms: u64, jitter: i64) -> (step: FetchStep)
    ensures
        step == fetch_step_spec(status, retries, delay_ms, jitter),
{
    if status == 200 {
        FetchStep::Parse
    } else if status == 429 {
        if retries >= MAX_FETCH_RETRIES {
            FetchStep::RateLimited { retry_after_secs: delay_ms / 1_000 }
        } else {
            let fraction: i64 = if jitter < 0 {
                0
            } else if jitter > SCALE {
                SCALE
            } else {
                jitter
            };
            let factor: u128 = (2 * SCALE + fraction / 2) as u128;
            assert(0 <= delay_ms * factor <= 0xffff_ffff_ffff_ffff * 2_500_000) by (nonlinear_arith)
                requires
                    0 <= delay_ms <= 0xffff_ffff_ffff_ffff,
                    0 <= factor <= 2_500_000,
            ;
            let next: u128 = (delay_ms as u128) * factor / (SCALE as u128);
            FetchStep::Wait {
                delay_ms,
                retries: retries + 1,
                next_delay_ms: if next > u64::MAX as u128 { u64::MAX } else { next as u64 },
            }
        }
    } else {
        FetchStep::Fail
    }
}

/// The text of a failed request: `HTTP <status>: <body>`.
pub fn http_error_text(status: &str, body: &str) -> (text: String)
    ensures
        text@ == "HTTP "@ + status@ + ": "@ + body@,
{
    let mut text = String::from_str("HTTP ");
    text.append(status);
    text.append(": ");
    text.append(body);
    text
}

} // verus!

//! Fusion of the forecast sources into one timeline, and its grouping into
//! windows.

use vstd::prelude::*;
use crate::clock::{normalize_offset, normalized_offset, Timestamp, HOUR_SECS};
use crate::forecast::openweather::{
    daily_weather, default_weather, default_weather_values, hour_at, hourly_weather,
    tri_hourly_weather, weather_of_daily, weather_of_hourly, weather_of_tri_hourly,
};
use crate::forecast::types::{Forecast3hItem, Forecast3hResponse, HourlyData, OneCallResponse};
use crate::fixed::{div_floor, lemma_div_bounds, saturate, saturate_i128};
use crate::scoring::WeatherFeatures;
use crate::text::{decimal, push_decimal};
use vstd::string::StringExecFns;

verus! {

/// Hours in the fused timeline: seven days.
pub const TIMELINE_HOURS: usize = 168;

/// Seconds in one bucket of the three-hour source.
pub const BUCKET_SECS: i64 = 10_800;

/// Last hour, counted from now, that the three-hour source may cover.
pub const TRI_HOURLY_HORIZON: usize = 120;

/// Last hour, counted from now, that the hourly source may cover.
pub const HOURLY_HORIZON: usize = 48;

/// Largest magnitude of the clock reading that the fuser accepts.
pub const MAX_NOW_SECS: i64 = 100_000_000_000_000;

/// The source that an hour of the timeline is taken from.
#[derive(Debug, Clone, Copy, PartialEq, Eq, Structural)]
pub enum HourSource {
    /// The item at `index` of the three-hour source.
    TriHourly { index: usize },
    /// The entry at `index` of the hourly source.
    Hourly { index: usize },
    /// The entry at `day` of the daily source, read at `hour_of_day`.
    Daily { day: usize, hour_of_day: i32 },
    /// No source covers the hour.
    Default,
}

/// The three-hour bucket that an instant falls in: buckets start at
/// multiples of three hours since the Unix epoch.
pub open spec fn bucket_of(secs: int) -> int {
    secs / (BUCKET_SECS as int)
}

/// The first second of the timeline: the caller's clock reading moved back
/// to the start of its hour under the given offset.
pub open spec fn timeline_start(now_secs: int, offset_secs: int) -> int {
    now_secs - (now_secs + offset_secs) % (HOUR_SECS as int)
}

/// Index of the last item below position `below` whose instant falls in
/// `bucket`, if there is one. Of several items in one bucket, the last
/// counts.
pub open spec fn last_in_bucket(list: Seq<Forecast3hItem>, bucket: int, below: int) -> Option<int>
    decreases below,
{
    if below <= 0 || below > list.len() {
        None
    } else if bucket_of(list[below - 1].dt as int) == bucket {
        Some(below - 1)
    } else {
        last_in_bucket(list, bucket, below - 1)
    }
}

/// The source of hour `hour` of a timeline whose hour stands at
/// `target_secs`, in strict priority: the three-hour source up to hour 120
/// where it has an item in the hour's bucket; the hourly source up to hour
/// 48 where it has an entry at that position; the daily source where it has
/// an entry for the hour's day; else none.
pub open spec fn source_of_hour(
    onecall: Option<&OneCallResponse>,
    forecast3h: Option<&Forecast3hResponse>,
    target_secs: int,
    hour: int,
) -> HourSource {
    let item = match forecast3h {
        Some(forecast) => last_in_bucket(
            forecast.list@,
            bucket_of(target_secs),
            forecast.list@.len() as int,
        ),
        None => None,
    };
    if hour <= TRI_HOURLY_HORIZON && item is Some {
        HourSource::TriHourly { index: item->0 as usize }
    } else if hour <= HOURLY_HORIZON && onecall is Some && hour < onecall->0.hourly@.len() {
        HourSource::Hourly { index: hour as usize }
    } else if onecall is Some && hour / 24 < onecall->0.daily@.len() {
        HourSource::Daily { day: (hour / 24) as usize, hour_of_day: (hour % 24) as i32 }
    } else {
        HourSource::Default
    }
}

/// The weather that a source gives an hour.
pub open spec fn weather_from(
    onecall: Option<&OneCallResponse>,
    forecast3h: Option<&Forecast3hResponse>,
    source: HourSource,
) -> WeatherFeatures {
    match source {
        HourSource::TriHourly { index } => tri_hourly_weather(forecast3h->0.list@[index as int]),
        HourSource::Hourly { index } => hourly_weather(onecall->0.hourly@[index as int]),
        HourSource::Daily { day, hour_of_day } => daily_weather(
            onecall->0.daily@[day as int],
            hour_of_day as int,
        ),
        HourSource::Default => default_weather(),
    }
}

/// Hour `hour` of the timeline fused from the sources at clock reading
/// `now_secs`: it stands `hour` hours after the timeline's start, under the
/// normalised offset, with the weather of its source.
pub open spec fn fused_hour(
    onecall: Option<&OneCallResponse>,
    forecast3h: Option<&Forecast3hResponse>,
    timezone_offset: int,
    now_secs: int,
    hour: int,
) -> HourlyData {
    let offset = normalized_offset(timezone_offset);
    let target = timeline_start(now_secs, offset) + hour * HOUR_SECS;
    HourlyData::at(
        Timestamp { secs: target as i64, offset_secs: offset as i32 },
        weather_from(onecall, forecast3h, source_of_hour(onecall, forecast3h, target, hour)),
    )
}

/// A timeline: 168 hours, each exactly one hour after the one before, all
/// under one valid offset.
pub open spec fn is_timeline(hours: Seq<HourlyData>) -> bool {
    &&& hours.len() == TIMELINE_HOURS
    &&& forall|h: int| 0 <= h < hours.len() ==> (#[trigger] hours[h]).ts.wf()
    &&& forall|h: int|
        0 <= h < hours.len() ==> (#[trigger] hours[h]).ts.offset_secs == hours[0].ts.offset_secs
    &&& forall|h: int|
        0 <= h < hours.len() - 1 ==> (#[trigger] hours[h + 1]).ts.secs == hours[h].ts.secs
            + HOUR_SECS
}

fn bucket_index(secs: i64) -> (bucket: i64)
    ensures
        bucket == bucket_of(secs as int),
{
    proof {
        crate::fixed::lemma_div_bounds(secs as int, BUCKET_SECS as int);
    }
    match secs.checked_div_euclid(BUCKET_SECS) {
        Some(q) => q,
        None => 0,
    }
}

/// Finds the last item of the three-hour source that falls in `bucket`.
pub fn find_bucket_item(list: &Vec<Forecast3hItem>, bucket: i64) -> (found: Option<usize>)
    ensures
        match found {
            Some(index) => last_in_bucket(list@, bucket as int, list@.len() as int) == Some(
                index as int,
            ) && index < list.len(),
            None => last_in_bucket(list@, bucket as int, list@.len() as int) is None,
        },
{
    let mut below: usize = list.len();
    while below > 0
        invariant
            below <= list.len(),
            last_in_bucket(list@, bucket as int, list@.len() as int) == last_in_bucket(
                list@,
                bucket as int,
                below as int,
            ),
        decreases below,
    {
        if bucket_index(list[below - 1].dt) == bucket {
            return Some(below - 1);
        }
        below = below - 1;
    }
    None
}

/// Chooses the source of one hour of the timeline.
pub fn select_source(
    onecall: Option<&OneCallResponse>,
    forecast3h: Option<&Forecast3hResponse>,
    target_secs: i64,
    hour: usize,
) -> (source: HourSource)
    ensures
        source == source_of_hour(onecall, forecast3h, target_secs as int, hour as int),
        source matches HourSource::TriHourly { index } ==> forecast3h is Some && index
            < forecast3h->0.list@.len(),
        source matches HourSource::Hourly { index } ==> onecall is Some && index
            < onecall->0.hourly@.len(),
        source matches HourSource::Daily { day, hour_of_day } ==> onecall is Some && day
            < onecall->0.daily@.len(),
{
    let item: Option<usize> = match forecast3h {
        Some(forecast) => find_bucket_item(&forecast.list, bucket_index(target_secs)),
        None => None,
    };
    if hour <= TRI_HOURLY_HORIZON {
        if let Some(index) = item {
            return HourSource::TriHourly { index };
        }
    }
    if let Some(response) = onecall {
        if hour <= HOURLY_HORIZON && hour < response.hourly.len() {
            return HourSource::Hourly { index: hour };
        }
        if hour / 24 < response.daily.len() {
            return HourSource::Daily { day: hour / 24, hour_of_day: (hour % 24) as i32 };
        }
    }
    HourSource::Default
}

/// Reads the weather that a chosen source gives an hour.
pub fn read_source(
    onecall: Option<&OneCallResponse>,
    forecast3h: Option<&Forecast3hResponse>,
    source: HourSource,
) -> (weather: WeatherFeatures)
    requires
        source matches HourSource::TriHourly { index } ==> forecast3h is Some && index
            < forecast3h->0.list@.len(),
        source matches HourSource::Hourly { index } ==> onecall is Some && index
            < onecall->0.hourly@.len(),
        source matches HourSource::Daily { day, hour_of_day } ==> onecall is Some && day
            < onecall->0.daily@.len(),
    ensures
        weather == weather_from(onecall, forecast3h, source),
{
    match source {
        HourSource::TriHourly { index } => match forecast3h {
            Some(forecast) => weather_of_tri_hourly(&forecast.list[index]),
            None => default_weather_values(),
        },
        HourSource::Hourly { index } => match onecall {
            Some(response) => weather_of_hourly(&response.hourly[index]),
            None => default_weather_values(),
        },
        HourSource::Daily { day, hour_of_day } => match onecall {
            Some(response) => weather_of_daily(&response.daily[day], hour_of_day),
            None => default_weather_values(),
        },
        HourSource::Default => default_weather_values(),
    }
}

/// The default record for an hour that no source covers.
pub fn create_default_hourly_data(dt: Timestamp) -> (hour: HourlyData)
    ensures
        hour == HourlyData::at(dt, default_weather()),
{
    hour_at(dt, default_weather_values())
}

/// Fuses the sources into the timeline of the 168 hours that start with
/// the current hour. `onecall` carries the hourly and the daily source,
/// `forecast3h` the three-hour source; `now_secs` is the caller's clock in
/// seconds since the Unix epoch.
pub fn merge_weather_data(
    onecall: Option<&OneCallResponse>,
    forecast3h: Option<&Forecast3hResponse>,
    timezone_offset: i32,
    now_secs: i64,
) -> (hours: Vec<HourlyData>)
    requires
        -MAX_NOW_SECS <= now_secs <= MAX_NOW_SECS,
    ensures
        hours.len() == TIMELINE_HOURS,
        forall|h: int|
            0 <= h < TIMELINE_HOURS ==> #[trigger] hours[h] == fused_hour(
                onecall,
                forecast3h,
                timezone_offset as int,
                now_secs as int,
                h,
            ),
        is_timeline(hours@),
{
    let offset = normalize_offset(timezone_offset);
    let into_hour: i64 = match (now_secs + offset as i64).checked_rem_euclid(HOUR_SECS) {
        Some(r) => r,
        None => 0,
    };
    let start: i64 = now_secs - into_hour;
    let mut hours: Vec<HourlyData> = Vec::new();
    let mut h: usize = 0;
    while h < TIMELINE_HOURS
        invariant
            h <= TIMELINE_HOURS,
            hours.len() == h,
            -MAX_NOW_SECS <= now_secs <= MAX_NOW_SECS,
            offset == normalized_offset(timezone_offset as int),
            start == timeline_start(now_secs as int, offset as int),
            forall|j: int|
                0 <= j < h ==> #[trigger] hours[j] == fused_hour(
                    onecall,
                    forecast3h,
                    timezone_offset as int,
                    now_secs as int,
                    j,
                ),
        decreases TIMELINE_HOURS - h,
    {
        let target: i64 = start + (h as i64) * HOUR_SECS;
        let source = select_source(onecall, forecast3h, target, h);
        let weather = read_source(onecall, forecast3h, source);
        hours.push(hour_at(Timestamp { secs: target, offset_secs: offset }, weather));
        h = h + 1;
    }
    proof {
        lemma_fused_hours_form_timeline(
            hours@,
            onecall,
            forecast3h,
            timezone_offset as int,
            now_secs as int,
        );
    }
    hours
}

/// Whatever sources are present, 168 fused hours form a timeline: strictly
/// increasing, one hour apart, under one valid offset.
pub proof fn lemma_fused_hours_form_timeline(
    hours: Seq<HourlyData>,
    onecall: Option<&OneCallResponse>,
    forecast3h: Option<&Forecast3hResponse>,
    timezone_offset: int,
    now_secs: int,
)
    requires
        -MAX_NOW_SECS <= now_secs <= MAX_NOW_SECS,
        hours.len() == TIMELINE_HOURS,
        forall|h: int|
            0 <= h < TIMELINE_HOURS ==> #[trigger] hours[h] == fused_hour(
                onecall,
                forecast3h,
                timezone_offset,
                now_secs,
                h,
            ),
    ensures
        is_timeline(hours),
        forall|h: int, k: int|
            0 <= h < k < TIMELINE_HOURS ==> (#[trigger] hours[h]).ts.secs < (
            #[trigger] hours[k]).ts.secs,
{
    let offset = normalized_offset(timezone_offset);
    let start = timeline_start(now_secs, offset);
    assert forall|h: int| 0 <= h < hours.len() implies (#[trigger] hours[h]).ts.secs == start + h
        * HOUR_SECS && hours[h].ts.offset_secs == offset by {
        assert(hours[h] == fused_hour(onecall, forecast3h, timezone_offset, now_secs, h));
    }
    assert forall|h: int| 0 <= h < hours.len() - 1 implies (#[trigger] hours[h + 1]).ts.secs
        == hours[h].ts.secs + HOUR_SECS by {
        assert(hours[h].ts.secs == start + h * HOUR_SECS);
    }
}

/// A window of consecutive hours with its aggregated weather.
#[derive(Debug, Clone)]
pub struct WindowData {
    pub id: String,
    pub start_time: Timestamp,
    pub end_time: Timestamp,
    pub weather: WeatherFeatures,
    pub step_hours: i32,
}

/// Running totals over a run of hours: the sums of the five summed fields
/// and the largest rain probability seen, which starts at zero.
pub struct Totals {
    pub temp_c: int,
    pub rh: int,
    pub wind_ms: int,
    pub cloud: int,
    pub rain_mm: int,
    pub rain_p_max: int,
}

/// The totals over `hours`.
pub open spec fn totals(hours: Seq<HourlyData>) -> Totals
    decreases hours.len(),
{
    if hours.len() == 0 {
        Totals { temp_c: 0, rh: 0, wind_ms: 0, cloud: 0, rain_mm: 0, rain_p_max: 0 }
    } else {
        let before = totals(hours.drop_last());
        let hour = hours.last();
        Totals {
            temp_c: before.temp_c + hour.temp_c,
            rh: before.rh + hour.rh,
            wind_ms: before.wind_ms + hour.wind_ms,
            cloud: before.cloud + hour.cloud,
            rain_mm: before.rain_mm + hour.rain_mm,
            rain_p_max: if hour.rain_p > before.rain_p_max {
                hour.rain_p as int
            } else {
                before.rain_p_max
            },
        }
    }
}

/// The weather of a window over `hours`: the mean, rounded down, of
/// temperature, humidity, wind and cloud cover; the largest rain
/// probability; the total rain, saturated to 64 bits.
pub open spec fn aggregate(hours: Seq<HourlyData>) -> WeatherFeatures {
    let sum = totals(hours);
    let count = hours.len() as int;
    WeatherFeatures {
        temp_c: (sum.temp_c / count) as i64,
        rh: (sum.rh / count) as i64,
        wind_ms: (sum.wind_ms / count) as i64,
        cloud: (sum.cloud / count) as i64,
        rain_p: sum.rain_p_max as i64,
        rain_mm: saturate(sum.rain_mm) as i64,
    }
}

/// Each total over `hours` is bounded by the number of hours times the
/// ends of the 64-bit range.
pub proof fn lemma_totals_bounded(hours: Seq<HourlyData>)
    ensures
        ({
            let sum = totals(hours);
            let low = hours.len() * (-0x8000_0000_0000_0000);
            let high = hours.len() * 0x7fff_ffff_ffff_ffff;
            &&& low <= sum.temp_c <= high
            &&& low <= sum.rh <= high
            &&& low <= sum.wind_ms <= high
            &&& low <= sum.cloud <= high
            &&& low <= sum.rain_mm <= high
            &&& 0 <= sum.rain_p_max <= i64::MAX
        }),
    decreases hours.len(),
{
    if hours.len() > 0 {
        lemma_totals_bounded(hours.drop_last());
    }
}

/// The mean of a bounded total lies within the 64-bit range.
proof fn lemma_mean_fits(sum: int, count: int)
    requires
        count > 0,
        count * (-0x8000_0000_0000_0000) <= sum <= count * 0x7fff_ffff_ffff_ffff,
    ensures
        -0x8000_0000_0000_0000 <= sum / count <= 0x7fff_ffff_ffff_ffff,
{
    let q = sum / count;
    let r = sum % count;
    vstd::arithmetic::div_mod::lemma_fundamental_div_mod(sum, count);
    vstd::arithmetic::div_mod::lemma_mod_bound(sum, count);
    assert(-0x8000_0000_0000_0000 <= q <= 0x7fff_ffff_ffff_ffff) by (nonlinear_arith)
        requires
            sum == count * q + r,
            0 <= r < count,
            count * (-0x8000_0000_0000_0000) <= sum <= count * 0x7fff_ffff_ffff_ffff,
    ;
}

/// Divides a total by the number of hours; the mean fits 64 bits.
fn mean(sum: i128, count: usize) -> (m: i64)
    requires
        count > 0,
        count * (-0x8000_0000_0000_0000) <= sum <= count * 0x7fff_ffff_ffff_ffff,
    ensures
        m == (sum as int) / (count as int),
{
    proof {
        lemma_mean_fits(sum as int, count as int);
    }
    div_floor(sum, count as i128) as i64
}

/// Aggregates the hours from `begin` up to `end`.
fn average_range(hours: &[HourlyData], begin: usize, end: usize) -> (weather: WeatherFeatures)
    requires
        begin < end <= hours@.len(),
    ensures
        weather == aggregate(hours@.subrange(begin as int, end as int)),
{
    let mut temp_c: i128 = 0;
    let mut rh: i128 = 0;
    let mut wind_ms: i128 = 0;
    let mut cloud: i128 = 0;
    let mut rain_mm: i128 = 0;
    let mut rain_p_max: i64 = 0;
    let mut i: usize = begin;
    while i < end
        invariant
            begin <= i <= end <= hours@.len(),
            ({
                let sum = totals(hours@.subrange(begin as int, i as int));
                &&& temp_c == sum.temp_c
                &&& rh == sum.rh
                &&& wind_ms == sum.wind_ms
                &&& cloud == sum.cloud
                &&& rain_mm == sum.rain_mm
                &&& rain_p_max == sum.rain_p_max
            }),
        decreases end - i,
    {
        proof {
            let next = hours@.subrange(begin as int, i + 1);
            assert(next.drop_last() == hours@.subrange(begin as int, i as int));
            assert(next.last() == hours@[i as int]);
            lemma_totals_bounded(next);
            lemma_totals_bounded(next.drop_last());
        }
        let hour = &hours[i];
        temp_c = temp_c + hour.temp_c as i128;
        rh = rh + hour.rh as i128;
        wind_ms = wind_ms + hour.wind_ms as i128;
        cloud = cloud + hour.cloud as i128;
        rain_mm = rain_mm + hour.rain_mm as i128;
        if hour.rain_p > rain_p_max {
            rain_p_max = hour.rain_p;
        }
        i = i + 1;
    }
    proof {
        lemma_totals_bounded(hours@.subrange(begin as int, end as int));
    }
    let count: usize = end - begin;
    WeatherFeatures {
        temp_c: mean(temp_c, count),
        rh: mean(rh, count),
        wind_ms: mean(wind_ms, count),
        cloud: mean(cloud, count),
        rain_p: rain_p_max,
        rain_mm: saturate_i128(rain_mm),
    }
}

/// Aggregates the hours of one window: means of temperature, humidity,
/// wind and cloud cover, the largest rain probability, the total rain.
pub fn average_weather_conditions(hours: &[HourlyData]) -> (weather: WeatherFeatures)
    requires
        hours@.len() > 0,
    ensures
        weather == aggregate(hours@),
{
    assert(hours@.subrange(0, hours@.len() as int) == hours@);
    average_range(hours, 0, hours.len())
}

/// Number of windows of width `width` over `count` hours: `count / width`,
/// rounded up.
pub open spec fn window_count(count: int, width: int) -> int {
    (count + width - 1) / width
}

/// The hours of window `k`: from `k * width` up to the next multiple of
/// `width` or the end of the timeline, whichever comes first.
pub open spec fn window_span(count: int, width: int, k: int) -> (int, int) {
    (k * width, if (k + 1) * width < count { (k + 1) * width } else { count })
}

/// The identifier of the window that starts at `start_secs` and is `width`
/// hours wide: `window_<start>_<width>`.
pub open spec fn window_id(start_secs: int, width: int) -> Seq<char> {
    "window_"@ + decimal(start_secs) + "_"@ + decimal(width)
}

/// Window `k` of the grouping of `hours` into windows of `width` hours.
pub open spec fn is_window(window: WindowData, hours: Seq<HourlyData>, width: int, k: int) -> bool {
    let (begin, end) = window_span(hours.len() as int, width, k);
    &&& window.id@ == window_id(hours[begin].ts.secs as int, width)
    &&& window.start_time == hours[begin].ts
    &&& window.end_time == Timestamp {
        secs: (hours[end - 1].ts.secs + HOUR_SECS) as i64,
        offset_secs: hours[end - 1].ts.offset_secs,
    }
    &&& window.weather == aggregate(hours.subrange(begin, end))
    &&& window.step_hours == width
}

/// The windows of a grouping tile the hours: the first span starts at hour
/// zero, each span is non-empty and at most `width` long, each starts where
/// the one before ends, and the last ends with the last hour.
pub proof fn lemma_windows_partition(count: int, width: int)
    requires
        count >= 0,
        width >= 1,
    ensures
        window_count(count, width) >= 0,
        count > 0 ==> window_span(count, width, 0).0 == 0,
        count > 0 ==> window_span(count, width, window_count(count, width) - 1).1 == count,
        forall|k: int|
            0 <= k < window_count(count, width) ==> {
                let span = #[trigger] window_span(count, width, k);
                &&& 0 <= span.0 < span.1 <= count
                &&& span.1 - span.0 <= width
            },
        forall|k: int|
            0 <= k < window_count(count, width) - 1 ==> (#[trigger] window_span(
                count,
                width,
                k,
            )).1 == window_span(count, width, k + 1).0,
{
    let n = window_count(count, width);
    let total = count + width - 1;
    vstd::arithmetic::div_mod::lemma_fundamental_div_mod(total, width);
    vstd::arithmetic::div_mod::lemma_mod_bound(total, width);
    let r = total % width;
    assert(total == width * n + r);
    assert(n >= 0) by (nonlinear_arith)
        requires
            total == width * n + r,
            0 <= r < width,
            total >= 0,
    ;
    assert forall|k: int| 0 <= k < n implies {
        let span = #[trigger] window_span(count, width, k);
        &&& 0 <= span.0 < span.1 <= count
        &&& span.1 - span.0 <= width
    } by {
        assert(k * width < count && k * width >= 0 && (k + 1) * width == k * width + width)
            by (nonlinear_arith)
            requires
                0 <= k < n,
                total == width * n + r,
                0 <= r < width,
                total == count + width - 1,
                width >= 1,
        ;
    }
    assert forall|k: int| 0 <= k < n - 1 implies (#[trigger] window_span(count, width, k)).1
        == window_span(count, width, k + 1).0 by {
        assert((k + 1) * width < count) by (nonlinear_arith)
            requires
                0 <= k < n - 1,
                total == width * n + r,
                0 <= r < width,
                total == count + width - 1,
                width >= 1,
        ;
    }
    if count > 0 {
        assert(n >= 1 && n * width >= count && 0 * width == 0) by (nonlinear_arith)
            requires
                total == width * n + r,
                0 <= r < width,
                total == count + width - 1,
                width >= 1,
                count > 0,
        ;
        assert((n - 1 + 1) * width == n * width);
    }
}

/// Once `k` windows of `width` hours reach the end of `count` hours and
/// `k - 1` do not, `k` is the number of windows.
proof fn lemma_window_count_reached(count: int, width: int, k: int)
    requires
        width >= 1,
        count >= 0,
        k >= 0,
        k * width >= count,
        k == 0 || (k - 1) * width < count,
    ensures
        k == window_count(count, width),
{
    let r = count + width - 1 - k * width;
    assert(0 <= r < width && count + width - 1 == k * width + r) by (nonlinear_arith)
        requires
            r == count + width - 1 - k * width,
            width >= 1,
            count >= 0,
            k >= 0,
            k * width >= count,
            k == 0 || (k - 1) * width < count,
    ;
    vstd::arithmetic::div_mod::lemma_fundamental_div_mod_converse(
        count + width - 1,
        width,
        k,
        r,
    );
}

/// Groups hours into consecutive windows of `step_hours` hours each; the
/// last window holds what is left and may be shorter.
pub fn group_into_windows(hourly_data: &[HourlyData], step_hours: i32) -> (windows: Vec<
    WindowData,
>)
    requires
        step_hours >= 1,
        forall|i: int| 0 <= i < hourly_data@.len() ==> (#[trigger] hourly_data@[i]).ts.wf(),
    ensures
        windows.len() == window_count(hourly_data@.len() as int, step_hours as int),
        forall|k: int|
            0 <= k < windows.len() ==> is_window(
                #[trigger] windows[k],
                hourly_data@,
                step_hours as int,
                k,
            ),
{
    let width: usize = step_hours as usize;
    let count: usize = hourly_data.len();
    let mut windows: Vec<WindowData> = Vec::new();
    let mut begin: usize = 0;
    assert(windows.len() * width == 0) by (nonlinear_arith)
        requires
            windows.len() == 0,
    ;
    while begin < count
        invariant
            width == step_hours,
            step_hours >= 1,
            count == hourly_data@.len(),
            begin <= count,
            begin == if windows.len() * width < count {
                windows.len() * width
            } else {
                count as int
            },
            windows.len() == 0 || (windows.len() - 1) * width < count,
            forall|i: int| 0 <= i < hourly_data@.len() ==> (#[trigger] hourly_data@[i]).ts.wf(),
            forall|k: int|
                0 <= k < windows.len() ==> is_window(
                    #[trigger] windows[k],
                    hourly_data@,
                    step_hours as int,
                    k,
                ),
        decreases count - begin,
    {
        let ghost k = windows.len() as int;
        let end: usize = if count - begin > width { begin + width } else { count };
        proof {
            assert((k + 1) * width == k * width + width) by (nonlinear_arith);
            assert(window_span(count as int, step_hours as int, k) == (begin as int, end as int));
        }
        let start_time = hourly_data[begin].ts;
        let last = &hourly_data[end - 1];
        let end_time = Timestamp {
            secs: last.ts.secs + HOUR_SECS,
            offset_secs: last.ts.offset_secs,
        };
        let weather = average_range(hourly_data, begin, end);
        let mut id = String::from_str("window_");
        push_decimal(&mut id, start_time.secs);
        id.append("_");
        push_decimal(&mut id, step_hours as i64);
        windows.push(WindowData { id, start_time, end_time, weather, step_hours });
        begin = end;
    }
    proof {
        let k = windows.len() as int;
        assert(k * width >= count);
        lemma_window_count_reached(count as int, width as int, k);
    }
    windows
}

/// The windows of a timeline tile its seven days: there are 168 / width
/// of them, rounded up; the first starts with the timeline; each starts
/// at the instant at which the one before ends; and the last ends one
/// hour after the last hour of the timeline.
pub proof fn lemma_timeline_windows_meet(
    hours: Seq<HourlyData>,
    width: int,
    windows: Seq<WindowData>,
)
    requires
        is_timeline(hours),
        width >= 1,
        windows.len() == window_count(hours.len() as int, width),
        forall|k: int| 0 <= k < windows.len() ==> is_window(#[trigger] windows[k], hours, width, k),
    ensures
        windows.len() == (TIMELINE_HOURS + width - 1) / width,
        windows.len() >= 1,
        windows[0].start_time == hours[0].ts,
        forall|k: int|
            0 <= k < windows.len() - 1 ==> (#[trigger] windows[k]).end_time == windows[k
                + 1].start_time,
        windows[windows.len() - 1].end_time == (Timestamp {
            secs: (hours[TIMELINE_HOURS - 1].ts.secs + HOUR_SECS) as i64,
            offset_secs: hours[0].ts.offset_secs,
        }),
{
    let count = hours.len() as int;
    lemma_windows_partition(count, width);
    assert forall|h: int| 0 <= h < count implies (#[trigger] hours[h]).ts.secs == hours[0].ts.secs
        + h * HOUR_SECS by {
        lemma_timeline_spacing(hours, h);
    }
    assert(is_window(windows[0], hours, width, 0));
    assert forall|k: int| 0 <= k < windows.len() - 1 implies (#[trigger] windows[k]).end_time
        == windows[k + 1].start_time by {
        assert(is_window(windows[k], hours, width, k));
        assert(is_window(windows[k + 1], hours, width, k + 1));
        let span = window_span(count, width, k);
        let next = window_span(count, width, k + 1);
        assert(span.1 == next.0);
        assert(hours[span.1 - 1].ts.secs + HOUR_SECS == hours[next.0].ts.secs);
        assert(hours[span.1 - 1].ts.offset_secs == hours[next.0].ts.offset_secs);
    }
    let last = windows.len() - 1;
    assert(is_window(windows[last], hours, width, last));
    assert(window_span(count, width, last).1 == count);
}

/// In a timeline, hour `h` stands `h` hours after hour zero.
proof fn lemma_timeline_spacing(hours: Seq<HourlyData>, h: int)
    requires
        is_timeline(hours),
        0 <= h < hours.len(),
    ensures
        hours[h].ts.secs == hours[0].ts.secs + h * HOUR_SECS,
    decreases h,
{
    if h > 0 {
        lemma_timeline_spacing(hours, h - 1);
        assert(hours[(h - 1) + 1].ts.secs == hours[h - 1].ts.secs + HOUR_SECS);
    }
}

} // verus!

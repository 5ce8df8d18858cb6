//! Helpers around the engine: text for people, validation of input, unit
//! conversion and smoothing.

use vstd::prelude::*;
use vstd::string::StringExecFns;
use std::time::Duration;
use crate::clock::{offset_is_valid, utc_datetime_exists, Timestamp};
pub use crate::limiter::RateLimiter;
use crate::fixed::{
    div_floor, lemma_div_bounds, mul_scaled, mul_spec, mul_wide, ratio, ratio_spec, saturate,
    saturate_i128, SCALE,
};
use crate::text::{
    char_is_alphanumeric, char_is_whitespace, chars_of, decimal, digits, fixed_text, holds_char,
    plain_text, push_decimal, push_digits, push_fixed, push_plain, same_text, trim_bounds,
    trimmed, text_of,
};

verus! {

/// How a number of hours reads: in hours below one day, else in days and
/// the hours left over; `hour` and `day` are singular after a one, except
/// that leftover hours are always `hours`.
pub open spec fn duration_text(hours: nat) -> Seq<char> {
    if hours == 0 {
        "0 hours"@
    } else if hours == 1 {
        "1 hour"@
    } else if hours < 24 {
        digits(hours) + " hours"@
    } else if hours % 24 == 0 {
        if hours / 24 == 1 {
            "1 day"@
        } else {
            digits(hours / 24) + " days"@
        }
    } else if hours / 24 == 1 {
        "1 day "@ + digits(hours % 24) + " hours"@
    } else {
        digits(hours / 24) + " days "@ + digits(hours % 24) + " hours"@
    }
}

/// Formats a number of hours for a reader.
pub fn format_duration(hours: u32) -> (text: String)
    ensures
        text@ == duration_text(hours as nat),
{
    if hours == 0 {
        String::from_str("0 hours")
    } else if hours == 1 {
        String::from_str("1 hour")
    } else if hours < 24 {
        let mut text = String::new();
        push_digits(&mut text, hours as u64);
        text.append(" hours");
        text
    } else {
        let days = hours / 24;
        let remaining_hours = hours % 24;
        if remaining_hours == 0 {
            if days == 1 {
                String::from_str("1 day")
            } else {
                let mut text = String::new();
                push_digits(&mut text, days as u64);
                text.append(" days");
                text
            }
        } else if days == 1 {
            let mut text = String::from_str("1 day ");
            push_digits(&mut text, remaining_hours as u64);
            text.append(" hours");
            text
        } else {
            let mut text = String::new();
            push_digits(&mut text, days as u64);
            text.append(" days ");
            push_digits(&mut text, remaining_hours as u64);
            text.append(" hours");
            text
        }
    }
}

/// A plausible e-mail address: it holds an `@`, though not as its first
/// character, and a dot, and is more than 5 and less than 255 bytes long.
pub open spec fn email_is_plausible(email: &str) -> bool {
    &&& email@.contains('@')
    &&& email@.contains('.')
    &&& 5 < email.len() < 255
    &&& email@.len() > 0 && email@[0] != '@'
}

/// Checks the basic shape of an e-mail address.
pub fn is_valid_email(email: &str) -> (valid: bool)
    ensures
        valid == email_is_plausible(email),
{
    let chars = chars_of(email);
    holds_char(&chars, '@') && holds_char(&chars, '.') && email.len() > 5 && email.len() < 255
        && chars.len() > 0 && chars[0] != '@'
}

/// Seconds for which data of a kind may be served from the cache: 10
/// minutes for `current`, 30 for `hourly`, 2 hours for `daily`, 24 for
/// `geocode`, and 30 minutes for any other kind.
pub open spec fn cache_ttl_secs(data_type: Seq<char>) -> u64 {
    if data_type == "current"@ {
        600
    } else if data_type == "hourly"@ {
        1_800
    } else if data_type == "daily"@ {
        7_200
    } else if data_type == "geocode"@ {
        86_400
    } else {
        1_800
    }
}

/// The span of `secs` whole seconds: what `Duration::from_secs` returns.
pub uninterp spec fn duration_of_secs(secs: u64) -> Duration;

/// `Duration::from_secs` makes the span of that many whole seconds.
pub assume_specification[ Duration::from_secs ](secs: u64) -> (span: Duration)
    ensures
        span == duration_of_secs(secs),
;

/// How long data of a kind may be served from the cache.
pub fn calculate_cache_ttl(data_type: &str) -> (ttl: Duration)
    ensures
        ttl == duration_of_secs(cache_ttl_secs(data_type@)),
{
    if same_text(data_type, "current") {
        Duration::from_secs(10 * 60)
    } else if same_text(data_type, "hourly") {
        Duration::from_secs(30 * 60)
    } else if same_text(data_type, "daily") {
        Duration::from_secs(2 * 60 * 60)
    } else if same_text(data_type, "geocode") {
        Duration::from_secs(24 * 60 * 60)
    } else {
        Duration::from_secs(30 * 60)
    }
}

/// A character that sanitising keeps: a letter, a digit, white space, or
/// one of ``.,!?-_()[]{}:;'"``.
pub open spec fn is_kept(c: char) -> bool {
    char_is_alphanumeric(c) || char_is_whitespace(c) || ".,!?-_()[]{}:;'\""@.contains(c)
}

/// The kept characters of `s`, in order.
pub open spec fn kept(s: Seq<char>) -> Seq<char>
    decreases s.len(),
{
    if s.len() == 0 {
        Seq::empty()
    } else if is_kept(s.last()) {
        kept(s.drop_last()).push(s.last())
    } else {
        kept(s.drop_last())
    }
}

/// The sanitised form of `input`: its kept characters, cut after
/// `max_length` of them, then trimmed.
pub open spec fn sanitized(input: Seq<char>, max_length: nat) -> Seq<char> {
    let all = kept(input);
    trimmed(if all.len() <= max_length { all } else { all.take(max_length as int) })
}

/// Cutting the kept characters of a text after `limit` of them gives what
/// a scan has kept so far, once the scan holds `limit` characters.
proof fn lemma_kept_prefix(s: Seq<char>, n: int, limit: int)
    requires
        0 <= n <= s.len(),
        kept(s.take(n)).len() >= limit >= 0,
    ensures
        kept(s).len() >= limit,
        kept(s).take(limit) == kept(s.take(n)).take(limit),
    decreases s.len() - n,
{
    if n == s.len() {
        assert(s.take(n) == s);
    } else {
        let next = s.take(n + 1);
        assert(next.drop_last() == s.take(n));
        assert(kept(next).take(limit) == kept(s.take(n)).take(limit));
        lemma_kept_prefix(s, n + 1, limit);
    }
}

/// Sanitises user input: keeps letters, digits, white space and a few
/// punctuation marks, cuts the result after `max_length` characters and
/// trims white space from its ends.
pub fn sanitize_string(input: &str, max_length: usize) -> (clean: String)
    ensures
        clean@ == sanitized(input@, max_length as nat),
{
    let chars = chars_of(input);
    let marks = chars_of(".,!?-_()[]{}:;'\"");
    let mut taken: Vec<char> = Vec::new();
    let mut i: usize = 0;
    while i < chars.len() && taken.len() < max_length
        invariant
            i <= chars.len(),
            chars@ == input@,
            marks@ == ".,!?-_()[]{}:;'\""@,
            taken@ == kept(chars@.take(i as int)),
            taken.len() <= max_length,
        decreases chars.len() - i,
    {
        let c = chars[i];
        proof {
            let next = chars@.take(i + 1);
            assert(next.drop_last() == chars@.take(i as int));
            assert(next.last() == c);
        }
        if c.is_alphanumeric() || c.is_whitespace() || holds_char(&marks, c) {
            taken.push(c);
        }
        i = i + 1;
    }
    proof {
        if taken.len() == max_length {
            lemma_kept_prefix(chars@, i as int, max_length as int);
            assert(taken@.take(max_length as int) == taken@);
            assert(kept(input@).take(max_length as int) == taken@);
            if kept(input@).len() <= max_length {
                assert(kept(input@).take(max_length as int) == kept(input@));
            }
        } else {
            assert(chars@.take(i as int) == chars@);
        }
        assert(taken@ == if kept(input@).len() <= max_length {
            kept(input@)
        } else {
            kept(input@).take(max_length as int)
        });
    }
    let (begin, end) = trim_bounds(&taken);
    if begin >= end {
        String::new()
    } else {
        text_of(&taken, begin, end)
    }
}

/// The identifier of a drying window at a place:
/// `window_<lat>_<lon>_<start>_<hours>h`, the coordinates with four decimal
/// places and the start in seconds since the Unix epoch.
pub open spec fn window_id_text(lat: int, lon: int, start_secs: int, duration_hours: nat) -> Seq<
    char,
> {
    "window_"@ + fixed_text(lat, 4) + "_"@ + fixed_text(lon, 4) + "_"@ + decimal(start_secs) + "_"@
        + digits(duration_hours) + "h"@
}

/// Names a drying window by its place, its start and its length.
pub fn generate_window_id(lat: i64, lon: i64, start_time: i64, duration_hours: u32) -> (id: String)
    ensures
        id@ == window_id_text(lat as int, lon as int, start_time as int, duration_hours as nat),
{
    let mut id = String::from_str("window_");
    push_fixed(&mut id, lat, 4);
    id.append("_");
    push_fixed(&mut id, lon, 4);
    id.append("_");
    push_decimal(&mut id, start_time);
    id.append("_");
    push_digits(&mut id, duration_hours as u64);
    id.append("h");
    id
}

/// The key under which weather for a place is cached:
/// `weather_<endpoint>_<lat>_<lon>`, the coordinates with four decimal
/// places.
pub open spec fn cache_key_text(lat: int, lon: int, endpoint: Seq<char>) -> Seq<char> {
    "weather_"@ + endpoint + "_"@ + fixed_text(lat, 4) + "_"@ + fixed_text(lon, 4)
}

/// Names the cache entry of an endpoint's answer for a place.
pub fn weather_cache_key(lat: i64, lon: i64, endpoint: &str) -> (key: String)
    ensures
        key@ == cache_key_text(lat as int, lon as int, endpoint@),
{
    let mut key = String::from_str("weather_");
    key.append(endpoint);
    key.append("_");
    push_fixed(&mut key, lat, 4);
    key.append("_");
    push_fixed(&mut key, lon, 4);
    key
}

/// Latitudes run from -90 to 90 degrees.
pub open spec fn latitude_in_range(lat: int) -> bool {
    -90_000_000 <= lat <= 90_000_000
}

/// Longitudes run from -180 to 180 degrees.
pub open spec fn longitude_in_range(lon: int) -> bool {
    -180_000_000 <= lon <= 180_000_000
}

/// What is said of coordinates that are out of range; the latitude is
/// looked at first.
pub open spec fn coordinates_complaint(lat: int, lon: int) -> Seq<char> {
    if !latitude_in_range(lat) {
        "Invalid latitude: "@ + plain_text(lat) + ". Must be between -90 and 90"@
    } else {
        "Invalid longitude: "@ + plain_text(lon) + ". Must be between -180 and 180"@
    }
}

/// Accepts coordinates on the globe and says what is wrong with others.
pub fn validate_coordinates(lat: i64, lon: i64) -> (checked: Result<(), String>)
    ensures
        checked is Ok <==> latitude_in_range(lat as int) && longitude_in_range(lon as int),
        checked matches Err(complaint) ==> complaint@ == coordinates_complaint(
            lat as int,
            lon as int,
        ),
{
    if lat < -90_000_000 || lat > 90_000_000 {
        let mut complaint = String::from_str("Invalid latitude: ");
        push_plain(&mut complaint, lat);
        complaint.append(". Must be between -90 and 90");
        return Err(complaint);
    }
    if lon < -180_000_000 || lon > 180_000_000 {
        let mut complaint = String::from_str("Invalid longitude: ");
        push_plain(&mut complaint, lon);
        complaint.append(". Must be between -180 and 180");
        return Err(complaint);
    }
    Ok(())
}

/// Degrees Fahrenheit for degrees Celsius: `c * 9 / 5 + 32`.
pub open spec fn fahrenheit_spec(celsius: int) -> int {
    saturate((celsius * 9) / 5 + 32_000_000)
}

/// Degrees Celsius for degrees Fahrenheit: `(f - 32) * 5 / 9`.
pub open spec fn celsius_spec(fahrenheit: int) -> int {
    ratio_spec(fahrenheit - 32_000_000, 5, 9)
}

/// Converts degrees Celsius to degrees Fahrenheit.
pub fn celsius_to_fahrenheit(celsius: i64) -> (fahrenheit: i64)
    ensures
        fahrenheit == fahrenheit_spec(celsius as int),
{
    proof {
        lemma_div_bounds(celsius * 9, 5);
    }
    saturate_i128(div_floor((celsius as i128) * 9, 5) + 32_000_000)
}

/// Converts degrees Fahrenheit to degrees Celsius.
pub fn fahrenheit_to_celsius(fahrenheit: i64) -> (celsius: i64)
    ensures
        celsius == celsius_spec(fahrenheit as int),
{
    ratio(fahrenheit as i128 - 32_000_000, 5, 9)
}

/// Metres per second to kilometres per hour: times 3.6.
pub fn ms_to_kmh(ms: i64) -> (kmh: i64)
    ensures
        kmh == ratio_spec(ms as int, 36, 10),
{
    ratio(ms as i128, 36, 10)
}

/// Metres per second to miles per hour: times 2.237.
pub fn ms_to_mph(ms: i64) -> (mph: i64)
    ensures
        mph == ratio_spec(ms as int, 2_237, 1_000),
{
    ratio(ms as i128, 2_237, 1_000)
}

/// Kilometres per hour to metres per second: divided by 3.6.
pub fn kmh_to_ms(kmh: i64) -> (ms: i64)
    ensures
        ms == ratio_spec(kmh as int, 10, 36),
{
    ratio(kmh as i128, 10, 36)
}

/// Miles per hour to metres per second: divided by 2.237.
pub fn mph_to_ms(mph: i64) -> (ms: i64)
    ensures
        ms == ratio_spec(mph as int, 1_000, 2_237),
{
    ratio(mph as i128, 1_000, 2_237)
}

/// Hectopascal to inches of mercury: times 0.02953.
pub fn hpa_to_inhg(hpa: i64) -> (inhg: i64)
    ensures
        inhg == ratio_spec(hpa as int, 2_953, 100_000),
{
    ratio(hpa as i128, 2_953, 100_000)
}

/// Inches of mercury to hectopascal: divided by 0.02953.
pub fn inhg_to_hpa(inhg: i64) -> (hpa: i64)
    ensures
        hpa == ratio_spec(inhg as int, 100_000, 2_953),
{
    ratio(inhg as i128, 100_000, 2_953)
}

/// `value` forced into `[min, max]`; where the bounds cross, `min` wins
/// for a value below it.
pub open spec fn bounded(value: int, min: int, max: int) -> int {
    if value < min {
        min
    } else if value > max {
        max
    } else {
        value
    }
}

/// Clamps a value between `min` and `max`.
pub fn clamp(value: i64, min: i64, max: i64) -> (r: i64)
    ensures
        r == bounded(value as int, min as int, max as int),
{
    if value < min {
        min
    } else if value > max {
        max
    } else {
        value
    }
}

/// The point a fraction `t` of the way from `a` to `b`, with `t` read as
/// a fraction of one: `a + (b - a) * clamp(t, 0, 1)`.
pub open spec fn lerp_spec(a: int, b: int, t: int) -> int {
    saturate(a + mul_spec(b - a, bounded(t, 0, SCALE as int)))
}

/// Interpolates linearly between two values.
pub fn lerp(a: i64, b: i64, t: i64) -> (r: i64)
    ensures
        r == lerp_spec(a as int, b as int, t as int),
{
    let fraction = clamp(t, 0, SCALE);
    let span: i128 = b as i128 - a as i128;
    assert(-0x1_0000_0000_0000_0000 * SCALE <= span * fraction <= 0x1_0000_0000_0000_0000 * SCALE)
        by (nonlinear_arith)
        requires
            -0x1_0000_0000_0000_0000 <= span <= 0x1_0000_0000_0000_0000,
            0 <= fraction <= SCALE,
    ;
    let product: i128 = span * (fraction as i128);
    proof {
        lemma_div_bounds(product as int, SCALE as int);
    }
    saturate_i128(a as i128 + div_floor(product, SCALE as i128))
}

/// A value rounded to `decimals` decimal places, half away from zero;
/// unchanged from six places on, which is all that a value holds.
pub open spec fn rounded(value: int, decimals: nat) -> int {
    if decimals >= 6 {
        value
    } else {
        let unit = crate::text::pow10((6 - decimals) as nat) as int;
        if value >= 0 {
            saturate(((value + unit / 2) / unit) * unit)
        } else {
            saturate(-(((-value + unit / 2) / unit) * unit))
        }
    }
}

/// Rounds to a number of decimal places.
pub fn round_to_decimals(value: i64, decimals: u32) -> (r: i64)
    ensures
        r == rounded(value as int, decimals as nat),
{
    if decimals >= 6 {
        return value;
    }
    let unit: u64 = crate::text::pow10_exec(6 - decimals);
    let magnitude: u64 = crate::text::magnitude_of(value);
    let steps: u64 = (magnitude + unit / 2) / unit;
    proof {
        vstd::arithmetic::div_mod::lemma_fundamental_div_mod(
            (magnitude + unit / 2) as int,
            unit as int,
        );
        vstd::arithmetic::div_mod::lemma_mod_bound((magnitude + unit / 2) as int, unit as int);
        assert(steps * unit == unit * steps) by (nonlinear_arith);
    }
    let snapped: i128 = (steps as i128) * (unit as i128);
    if value >= 0 {
        saturate_i128(snapped)
    } else {
        saturate_i128(-snapped)
    }
}

/// The sum of a run of values.
pub open spec fn seq_sum(values: Seq<i64>) -> int
    decreases values.len(),
{
    if values.len() == 0 {
        0
    } else {
        seq_sum(values.drop_last()) + values.last()
    }
}

/// A sum is bounded by the number of its values times the ends of the
/// 64-bit range.
pub proof fn lemma_seq_sum_bounded(values: Seq<i64>)
    ensures
        values.len() * (-0x8000_0000_0000_0000) <= seq_sum(values) <= values.len()
            * 0x7fff_ffff_ffff_ffff,
    decreases values.len(),
{
    if values.len() > 0 {
        lemma_seq_sum_bounded(values.drop_last());
    }
}

/// First position of the window of `window_size` values that ends at
/// position `i`; the window is shorter where fewer values come before.
pub open spec fn window_start(window_size: int, i: int) -> int {
    if i >= window_size - 1 { i - window_size + 1 } else { 0 }
}

/// The mean, rounded down, of the window that ends at position `i`.
pub open spec fn window_mean(values: Seq<i64>, window_size: int, i: int) -> int {
    let start = window_start(window_size, i);
    seq_sum(values.subrange(start, i + 1)) / (i + 1 - start)
}

/// The mean of the values from `start` up to and including `last`.
fn mean_of_range(values: &[i64], start: usize, last: usize) -> (m: i64)
    requires
        start <= last < values@.len(),
    ensures
        m == seq_sum(values@.subrange(start as int, last + 1)) / (last + 1 - start),
{
    let mut sum: i128 = 0;
    let mut j: usize = start;
    while j <= last
        invariant
            start <= j <= last + 1,
            last < values@.len(),
            sum == seq_sum(values@.subrange(start as int, j as int)),
        decreases last + 1 - j,
    {
        proof {
            let next = values@.subrange(start as int, j + 1);
            assert(next.drop_last() == values@.subrange(start as int, j as int));
            lemma_seq_sum_bounded(next);
            lemma_seq_sum_bounded(next.drop_last());
        }
        sum = sum + values[j] as i128;
        j = j + 1;
    }
    let count: usize = last - start + 1;
    proof {
        let all = values@.subrange(start as int, last + 1);
        lemma_seq_sum_bounded(all);
        let q = seq_sum(all) / (count as int);
        let r = seq_sum(all) % (count as int);
        vstd::arithmetic::div_mod::lemma_fundamental_div_mod(seq_sum(all), count as int);
        vstd::arithmetic::div_mod::lemma_mod_bound(seq_sum(all), count as int);
        assert(-0x8000_0000_0000_0000 <= q <= 0x7fff_ffff_ffff_ffff) by (nonlinear_arith)
            requires
                seq_sum(all) == count * q + r,
                0 <= r < count,
                count * (-0x8000_0000_0000_0000) <= seq_sum(all) <= count * 0x7fff_ffff_ffff_ffff,
        ;
    }
    div_floor(sum, count as i128) as i64
}

/// The moving average of `values`: at each position the mean of the last
/// `window_size` values up to it. Empty where there are no values or the
/// window is empty.
pub fn moving_average(values: &[i64], window_size: usize) -> (averages: Vec<i64>)
    ensures
        values@.len() == 0 || window_size == 0 ==> averages@.len() == 0,
        values@.len() > 0 && window_size > 0 ==> averages@.len() == values@.len(),
        forall|i: int|
            0 <= i < averages@.len() ==> #[trigger] averages@[i] == window_mean(
                values@,
                window_size as int,
                i,
            ),
{
    let mut averages: Vec<i64> = Vec::new();
    if values.len() == 0 || window_size == 0 {
        return averages;
    }
    let mut i: usize = 0;
    while i < values.len()
        invariant
            i <= values@.len(),
            window_size > 0,
            averages@.len() == i,
            forall|k: int|
                0 <= k < i ==> #[trigger] averages@[k] == window_mean(
                    values@,
                    window_size as int,
                    k,
                ),
        decreases values@.len() - i,
    {
        let start: usize = if i >= window_size - 1 { i - (window_size - 1) } else { 0 };
        averages.push(mean_of_range(values, start, i));
        i = i + 1;
    }
    averages
}

/// The exponential moving average at position `i`: the first value at
/// position zero, then `alpha * value + (1 - alpha) * previous`, saturated
/// to 64 bits.
pub open spec fn ema_at(values: Seq<i64>, alpha: int, i: int) -> int
    decreases i,
{
    if i <= 0 {
        values[0] as int
    } else {
        saturate(
            mul_spec(alpha, values[i] as int) + mul_spec(SCALE - alpha, ema_at(values, alpha, i - 1)),
        )
    }
}

/// The exponential moving average of `values` with smoothing factor
/// `alpha`.
pub fn exponential_moving_average(values: &[i64], alpha: i64) -> (averages: Vec<i64>)
    ensures
        averages@.len() == values@.len(),
        forall|i: int|
            0 <= i < averages@.len() ==> #[trigger] averages@[i] == ema_at(
                values@,
                alpha as int,
                i,
            ),
{
    let mut averages: Vec<i64> = Vec::new();
    if values.len() == 0 {
        return averages;
    }
    let mut ema: i64 = values[0];
    averages.push(ema);
    let mut i: usize = 1;
    while i < values.len()
        invariant
            1 <= i <= values@.len(),
            averages@.len() == i,
            ema == ema_at(values@, alpha as int, i - 1),
            forall|k: int|
                0 <= k < i ==> #[trigger] averages@[k] == ema_at(values@, alpha as int, k),
        decreases values@.len() - i,
    {
        let fresh = mul_scaled(alpha, values[i]);
        let carried = mul_wide(SCALE as i128 - alpha as i128, ema as i128);
        proof {
            lemma_mul_spec_bounded(alpha as int, values@[i as int] as int);
            lemma_mul_spec_bounded(SCALE - alpha, ema as int);
        }
        ema = saturate_i128(fresh + carried);
        averages.push(ema);
        i = i + 1;
    }
    averages
}

/// A fixed-point product of operands within 65 bits stays within 109
/// bits.
proof fn lemma_mul_spec_bounded(a: int, b: int)
    requires
        -0x1_0000_0000_0000_0000 <= a <= 0x1_0000_0000_0000_0000,
        -0x1_0000_0000_0000_0000 <= b <= 0x1_0000_0000_0000_0000,
    ensures
        -0x2000_0000_0000_0000_0000_0000_0000 <= mul_spec(a, b)
            <= 0x2000_0000_0000_0000_0000_0000_0000,
{
    assert(-0x1_0000_0000_0000_0000 * 0x1_0000_0000_0000_0000 <= a * b <= 0x1_0000_0000_0000_0000
        * 0x1_0000_0000_0000_0000) by (nonlinear_arith)
        requires
            -0x1_0000_0000_0000_0000 <= a <= 0x1_0000_0000_0000_0000,
            -0x1_0000_0000_0000_0000 <= b <= 0x1_0000_0000_0000_0000,
    ;
}

/// Draws a number from zero up to and including `max` from the thread's
/// random generator, with `rand::Rng::gen_range`. Stated of the outcome:
/// it lies in the range asked for.
#[verifier::external_body]
fn random_up_to(max: u64) -> (drawn: u64)
    ensures
        drawn <= max,
{
    rand::Rng::gen_range(&mut rand::thread_rng(), 0..=max)
}

/// A delay lengthened by a drawn amount.
pub fn with_jitter(base_ms: u64, drawn_ms: u64) -> (delay_ms: u64)
    requires
        base_ms + drawn_ms <= u64::MAX,
    ensures
        delay_ms == base_ms + drawn_ms,
{
    base_ms + drawn_ms
}

/// A retry delay: the base delay plus a random amount of at most
/// `max_jitter_ms`.
pub fn jitter(base_ms: u64, max_jitter_ms: u64) -> (delay_ms: u64)
    requires
        base_ms + max_jitter_ms <= u64::MAX,
    ensures
        base_ms <= delay_ms <= base_ms + max_jitter_ms,
{
    with_jitter(base_ms, random_up_to(max_jitter_ms))
}

/// A time zone of the IANA database, as `chrono_tz` holds it.
#[verifier::external_type_specification]
#[verifier::external_body]
pub struct ExTz(chrono_tz::Tz);

/// The time zone that a name stands for, if it is one: what parsing the
/// name as a `chrono_tz::Tz` returns.
pub uninterp spec fn zone_named(name: Seq<char>) -> Option<chrono_tz::Tz>;

/// The offset from UTC, in seconds east, that holds in the zone named
/// `name` at the instant `secs`: what `chrono_tz` looks up for it.
pub uninterp spec fn zone_offset_at(name: Seq<char>, secs: i64) -> Option<i32>;

/// Parses a zone name with `chrono_tz`'s `FromStr`, which looks the name
/// up in its table of zones. The answer is named.
#[verifier::external_body]
fn lookup_zone(name: &str) -> (zone: Option<chrono_tz::Tz>)
    ensures
        zone == zone_named(name@),
{
    name.parse::<chrono_tz::Tz>().ok()
}

/// Looks up the zone of `name` and asks it, with
/// `TimeZone::offset_from_utc_datetime`, for the offset that holds at the
/// instant `secs`. The answer is named. Stated of it: there is one exactly
/// where the name is a zone and `chrono` can represent the instant, and it
/// is a valid offset, since `chrono` builds it with `FixedOffset::east_opt`.
#[verifier::external_body]
fn lookup_offset(name: &str, secs: i64) -> (offset: Option<i32>)
    ensures
        offset == zone_offset_at(name@, secs),
        offset.is_some() == (zone_named(name@).is_some() && utc_datetime_exists(secs)),
        offset matches Some(seconds) ==> offset_is_valid(seconds as int),
{
    let zone = name.parse::<chrono_tz::Tz>().ok()?;
    let utc = chrono::DateTime::from_timestamp(secs, 0)?.naive_utc();
    let held = chrono::TimeZone::offset_from_utc_datetime(&zone, &utc);
    Some(chrono::Offset::fix(&held).local_minus_utc())
}

/// Reads the name of a time zone.
pub fn parse_timezone(tz_str: &str) -> (parsed: Result<chrono_tz::Tz, String>)
    ensures
        match zone_named(tz_str@) {
            Some(zone) => parsed == Ok::<chrono_tz::Tz, String>(zone),
            None => parsed matches Err(complaint) && complaint@ == "Invalid timezone: "@ + tz_str@,
        },
{
    match lookup_zone(tz_str) {
        Some(zone) => Ok(zone),
        None => {
            let mut complaint = String::from_str("Invalid timezone: ");
            complaint.append(tz_str);
            Err(complaint)
        },
    }
}

/// What showing the instant `utc_secs` in the zone named `timezone` gives:
/// the instant under the offset that holds there then; a complaint where
/// the name is no zone or the instant cannot be represented.
pub open spec fn is_local_time(
    shown: Result<Timestamp, String>,
    utc_secs: i64,
    timezone: Seq<char>,
) -> bool {
    if zone_named(timezone) is None {
        shown matches Err(complaint) && complaint@ == "Invalid timezone: "@ + timezone
    } else {
        match zone_offset_at(timezone, utc_secs) {
            Some(offset) => shown == Ok::<Timestamp, String>(
                Timestamp { secs: utc_secs, offset_secs: offset },
            ),
            None => shown matches Err(complaint) && complaint@ == "Invalid timestamp: "@ + decimal(
                utc_secs as int,
            ),
        }
    }
}

/// Shows an instant in a named time zone.
pub fn utc_to_local(utc_time: i64, timezone: &str) -> (shown: Result<Timestamp, String>)
    ensures
        is_local_time(shown, utc_time, timezone@),
        shown matches Ok(local) ==> offset_is_valid(local.offset_secs as int),
{
    match parse_timezone(timezone) {
        Ok(_) => match lookup_offset(timezone, utc_time) {
            Some(offset) => Ok(Timestamp { secs: utc_time, offset_secs: offset }),
            None => {
                let mut complaint = String::from_str("Invalid timestamp: ");
                push_decimal(&mut complaint, utc_time);
                Err(complaint)
            },
        },
        Err(complaint) => Err(complaint),
    }
}

/// An error as the service reports it. The timestamp is in milliseconds
/// since the Unix epoch.
#[derive(Debug, Clone)]
pub struct ErrorResponse {
    pub error: String,
    pub code: String,
    pub timestamp: i64,
    pub request_id: Option<String>,
}

impl ErrorResponse {
    /// An error report made at time `now_ms`, without a request id.
    pub fn new(error: &str, code: &str, now_ms: i64) -> (response: ErrorResponse)
        ensures
            response.error@ == error@,
            response.code@ == code@,
            response.timestamp == now_ms,
            response.request_id is None,
    {
        ErrorResponse {
            error: String::from_str(error),
            code: String::from_str(code),
            timestamp: now_ms,
            request_id: None,
        }
    }

    /// The same report with a request id.
    pub fn with_request_id(self, request_id: String) -> (response: ErrorResponse)
        ensures
            response.error == self.error,
            response.code == self.code,
            response.timestamp == self.timestamp,
            response.request_id == Some(request_id),
    {
        ErrorResponse {
            error: self.error,
            code: self.code,
            timestamp: self.timestamp,
            request_id: Some(request_id),
        }
    }
}

/// A result as the service reports it. The timestamp is in milliseconds
/// since the Unix epoch.
#[derive(Debug, Clone)]
pub struct SuccessResponse<T> {
    pub data: T,
    pub timestamp: i64,
    pub request_id: Option<String>,
}

impl<T> SuccessResponse<T> {
    /// A report of `data` made at time `now_ms`, without a request id.
    pub fn new(data: T, now_ms: i64) -> (response: SuccessResponse<T>)
        ensures
            response.data == data,
            response.timestamp == now_ms,
            response.request_id is None,
    {
        SuccessResponse { data, timestamp: now_ms, request_id: None }
    }

    /// The same report with a request id.
    pub fn with_request_id(self, request_id: String) -> (response: SuccessResponse<T>)
        ensures
            response.data == self.data,
            response.timestamp == self.timestamp,
            response.request_id == Some(request_id),
    {
        SuccessResponse { data: self.data, timestamp: self.timestamp, request_id: Some(request_id) }
    }
}

} // verus!

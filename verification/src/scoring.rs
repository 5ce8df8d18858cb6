//! Drying score: feature normalisation, the linear scorer with its rain
//! veto, and the online learner for the weight vector.
//!
//! Every quantity is a fixed-point integer in millionths of its unit:
//! degrees Celsius, percent relative humidity, metres per second, fractions
//! of one and kilopascals alike.

use vstd::prelude::*;
use crate::fixed::{
    clamp_i64, clamp_spec, div_floor, exp_fixed, exp_spec, lemma_div_bounds,
    lemma_pow07_in_unit_range, lemma_sigmoid_in_unit_range, mul_scaled, mul_spec, pow07_fixed, pow07_spec, saturate,
    saturate_i128, sigmoid_fixed, sigmoid_spec, LIMIT, SCALE,
};

verus! {

/// Aggregated weather of one window.
#[derive(Debug, Clone, Copy, PartialEq, Eq, Structural)]
pub struct WeatherFeatures {
    pub temp_c: i64,
    pub rh: i64,
    pub wind_ms: i64,
    pub cloud: i64,
    pub rain_p: i64,
    pub rain_mm: i64,
}

/// The six model inputs, each a fraction of one.
#[derive(Debug, Clone, Copy, PartialEq, Eq, Structural)]
pub struct NormalizedFeatures {
    pub f_temp: i64,
    pub f_hum: i64,
    pub f_wind: i64,
    pub f_cloud: i64,
    pub f_rain: i64,
    pub f_vpd: i64,
}

/// Bias and six feature weights of the linear model.
#[derive(Debug, Clone, Copy, PartialEq, Eq, Structural)]
pub struct DryingWeights {
    pub w0: i64,
    pub w1: i64,
    pub w2: i64,
    pub w3: i64,
    pub w4: i64,
    pub w5: i64,
    pub w6: i64,
}

/// Result of scoring one window.
#[derive(Debug, Clone, Copy, PartialEq, Eq, Structural)]
pub struct DryingScore {
    pub score: i64,
    pub unsafe_window: bool,
    pub features: NormalizedFeatures,
    pub raw: WeatherFeatures,
    pub vpd_kpa: i64,
}

/// Score of a window that the rain veto rejects.
pub const UNSAFE_SCORE: i64 = -1_000_000;

/// Rain probability above which a window is vetoed (0.50).
pub const VETO_RAIN_PROBABILITY: i64 = 500_000;

/// Rain total in millimetres above which a window is vetoed (0.2).
pub const VETO_RAIN_MM: i64 = 200_000;

/// Subtracted from the score below 18 degrees (0.15).
pub const COLD_PENALTY: i64 = 150_000;

/// Subtracted from the score below 1 m/s of wind (0.10).
pub const CALM_PENALTY: i64 = 100_000;

impl NormalizedFeatures {
    /// Every feature lies in `[0, 1]`.
    pub open spec fn in_unit_range(&self) -> bool {
        &&& 0 <= self.f_temp <= SCALE
        &&& 0 <= self.f_hum <= SCALE
        &&& 0 <= self.f_wind <= SCALE
        &&& 0 <= self.f_cloud <= SCALE
        &&& 0 <= self.f_rain <= SCALE
        &&& 0 <= self.f_vpd <= SCALE
    }
}

impl DryingWeights {
    /// Every weight lies in its documented range: the bias in
    /// `[-0.5, 0.5]`, `w1`, `w2`, `w3`, `w6` in `[0, 0.5]`, `w4`, `w5` in
    /// `[0, 0.3]`.
    pub open spec fn in_bounds(&self) -> bool {
        &&& -500_000 <= self.w0 <= 500_000
        &&& 0 <= self.w1 <= 500_000
        &&& 0 <= self.w2 <= 500_000
        &&& 0 <= self.w3 <= 500_000
        &&& 0 <= self.w4 <= 300_000
        &&& 0 <= self.w5 <= 300_000
        &&& 0 <= self.w6 <= 500_000
    }

    /// The weights a fresh model starts from.
    pub open spec fn initial() -> DryingWeights {
        DryingWeights {
            w0: 0,
            w1: 250_000,
            w2: 250_000,
            w3: 200_000,
            w4: 100_000,
            w5: 150_000,
            w6: 250_000,
        }
    }
}

impl Default for DryingWeights {
    fn default() -> (w: DryingWeights)
        ensures
            w == DryingWeights::initial(),
            w.in_bounds(),
    {
        DryingWeights {
            w0: 0,
            w1: 250_000,
            w2: 250_000,
            w3: 200_000,
            w4: 100_000,
            w5: 150_000,
            w6: 250_000,
        }
    }
}

/// Clamps `value` into `[min, max]`; where the bounds cross, `max` wins.
pub fn clamp(value: i64, min: i64, max: i64) -> (r: i64)
    ensures
        r == clamp_spec(value as int, min as int, max as int),
{
    clamp_i64(value, min, max)
}

/// Exponent of the Tetens formula, `17.27 * T / (T + 237.3)`.
pub open spec fn tetens_exponent(temp_c: int) -> int {
    (17_270_000 * temp_c) / (temp_c + 237_300_000)
}

/// Saturation vapour pressure in kPa, `0.6108 * exp(17.27 * T / (T + 237.3))`;
/// zero at and below -237.3 degrees, where the formula has its pole.
pub open spec fn saturation_pressure(temp_c: int) -> int {
    if temp_c + 237_300_000 <= 0 {
        0
    } else {
        mul_spec(610_800, exp_spec(tetens_exponent(temp_c)))
    }
}

/// Vapour-pressure deficit in kPa: saturation pressure minus actual vapour
/// pressure `es * RH / 100`, never negative.
pub open spec fn vpd_spec(temp_c: int, rh: int) -> int {
    let es = saturation_pressure(temp_c);
    let e = (es * rh) / (100 * SCALE);
    saturate(if es - e > 0 { es - e } else { 0 })
}

/// Saturation vapour pressure in kPa at a temperature.
fn saturation_pressure_fixed(temp_c: i64) -> (es: i64)
    ensures
        es == saturation_pressure(temp_c as int),
        0 <= es <= 1_000_000_000_000_000,
{
    let shifted: i128 = temp_c as i128 + 237_300_000;
    if shifted <= 0 {
        return 0;
    }
    let ratio = div_floor(17_270_000 * (temp_c as i128), shifted);
    let bounded: i64 = if ratio < -20_000_000 {
        -20_000_000
    } else if ratio > 20_000_000 {
        20_000_000
    } else {
        ratio as i64
    };
    let grown = exp_fixed(bounded);
    assert(exp_spec(ratio as int) == exp_spec(bounded as int));
    let es = mul_scaled(610_800, grown);
    es as i64
}

/// Vapour-pressure deficit in kPa at a temperature and a relative humidity.
pub fn calculate_vpd_kpa(temp_c: i64, rh: i64) -> (vpd: i64)
    ensures
        vpd == vpd_spec(temp_c as int, rh as int),
        vpd >= 0,
{
    let es = saturation_pressure_fixed(temp_c);
    assert(-1_000_000_000_000_000 * 0x8000_0000_0000_0000 <= es * rh
        <= 1_000_000_000_000_000 * 0x8000_0000_0000_0000) by (nonlinear_arith)
        requires
            0 <= es <= 1_000_000_000_000_000,
            -0x8000_0000_0000_0000 <= rh < 0x8000_0000_0000_0000,
    ;
    let product: i128 = (es as i128) * (rh as i128);
    proof {
        lemma_div_bounds(product as int, 100 * SCALE);
    }
    let e = div_floor(product, 100 * (SCALE as i128));
    let deficit: i128 = es as i128 - e;
    saturate_i128(if deficit > 0 { deficit } else { 0 })
}

/// The six normalised features of a window:
/// `f_temp = clamp((T - 15) / 15, 0, 1)`, `f_hum = 1 - (RH / 100)^0.7` with
/// `RH / 100` read within `[0, 1]`, `f_wind = clamp(wind / 6, 0, 1)`,
/// `f_cloud = 1 - clamp(cloud, 0, 1)`, `f_rain = 1 - clamp(rain_p, 0, 1)`,
/// `f_vpd = clamp(vpd / 2.5, 0, 1)`.
pub open spec fn normalize_spec(weather: WeatherFeatures) -> NormalizedFeatures {
    NormalizedFeatures {
        f_temp: clamp_spec((weather.temp_c - 15_000_000) / 15, 0, SCALE as int) as i64,
        f_hum: (SCALE - pow07_spec(weather.rh / 100)) as i64,
        f_wind: clamp_spec(weather.wind_ms / 6, 0, SCALE as int) as i64,
        f_cloud: (SCALE - clamp_spec(weather.cloud as int, 0, SCALE as int)) as i64,
        f_rain: (SCALE - clamp_spec(weather.rain_p as int, 0, SCALE as int)) as i64,
        f_vpd: clamp_spec(
            (vpd_spec(weather.temp_c as int, weather.rh as int) * 2) / 5,
            0,
            SCALE as int,
        ) as i64,
    }
}

/// Divides a value by a small positive constant and clamps the quotient
/// into the unit interval.
fn unit_fraction(numerator: i128, divisor: i128) -> (r: i64)
    requires
        divisor > 0,
    ensures
        r == clamp_spec((numerator as int) / (divisor as int), 0, SCALE as int),
        0 <= r <= SCALE,
{
    let q = div_floor(numerator, divisor);
    if q < 0 {
        0
    } else if q > SCALE as i128 {
        SCALE
    } else {
        q as i64
    }
}

/// Maps the weather of a window to its normalised features and its
/// vapour-pressure deficit in kPa.
pub fn normalize_features(weather: &WeatherFeatures) -> (r: (NormalizedFeatures, i64))
    ensures
        r.0 == normalize_spec(*weather),
        r.1 == vpd_spec(weather.temp_c as int, weather.rh as int),
        r.0.in_unit_range(),
{
    let vpd_kpa = calculate_vpd_kpa(weather.temp_c, weather.rh);
    proof {
        lemma_div_bounds(weather.rh as int, 100);
    }
    let humidity_fraction = div_floor(weather.rh as i128, 100);
    let features = NormalizedFeatures {
        f_temp: unit_fraction(weather.temp_c as i128 - 15_000_000, 15),
        f_hum: SCALE - pow07_fixed(humidity_fraction as i64),
        f_wind: unit_fraction(weather.wind_ms as i128, 6),
        f_cloud: SCALE - clamp_i64(weather.cloud, 0, SCALE),
        f_rain: SCALE - clamp_i64(weather.rain_p, 0, SCALE),
        f_vpd: unit_fraction((vpd_kpa as i128) * 2, 5),
    };
    (features, vpd_kpa)
}

/// Whatever the weather, in range or not, each of the six normalised
/// features lies in `[0, 1]`.
pub proof fn lemma_normalized_in_unit_range(weather: WeatherFeatures)
    ensures
        normalize_spec(weather).in_unit_range(),
{
    lemma_pow07_in_unit_range(weather.rh / 100);
}

/// The rain veto: more than 0.50 rain probability or more than 0.2 mm.
pub open spec fn is_unsafe(weather: WeatherFeatures) -> bool {
    weather.rain_p > VETO_RAIN_PROBABILITY || weather.rain_mm > VETO_RAIN_MM
}

/// `w0 + w1 * f_temp + w2 * f_hum + w3 * f_wind + w4 * f_cloud + w5 * f_rain
/// + w6 * f_vpd`.
pub open spec fn linear_score(weights: DryingWeights, f: NormalizedFeatures) -> int {
    weights.w0 + mul_spec(weights.w1 as int, f.f_temp as int) + mul_spec(
        weights.w2 as int,
        f.f_hum as int,
    ) + mul_spec(weights.w3 as int, f.f_wind as int) + mul_spec(
        weights.w4 as int,
        f.f_cloud as int,
    ) + mul_spec(weights.w5 as int, f.f_rain as int) + mul_spec(
        weights.w6 as int,
        f.f_vpd as int,
    )
}

/// The fixed deductions: 0.15 below 18 degrees and 0.10 below 1 m/s.
pub open spec fn soft_penalties(weather: WeatherFeatures) -> int {
    (if weather.temp_c < 18_000_000 { COLD_PENALTY as int } else { 0 }) + (if weather.wind_ms
        < 1_000_000 { CALM_PENALTY as int } else { 0 })
}

/// The score of a window: the veto value where the window is unsafe, else
/// the linear score less the soft penalties, saturated to 64 bits.
pub open spec fn score_spec(weather: WeatherFeatures, weights: DryingWeights) -> int {
    if is_unsafe(weather) {
        UNSAFE_SCORE as int
    } else {
        saturate(linear_score(weights, normalize_spec(weather)) - soft_penalties(weather))
    }
}

/// One weighted feature, with the bound that keeps the sum in 128 bits.
fn weighted(weight: i64, feature: i64) -> (r: i128)
    requires
        0 <= feature <= SCALE,
    ensures
        r == mul_spec(weight as int, feature as int),
        -0x8000_0000_0000_0000 <= r <= 0x8000_0000_0000_0000,
{
    assert(-0x8000_0000_0000_0000 * SCALE <= weight * feature <= 0x8000_0000_0000_0000 * SCALE)
        by (nonlinear_arith)
        requires
            0 <= feature <= SCALE,
            -0x8000_0000_0000_0000 <= weight < 0x8000_0000_0000_0000,
    ;
    mul_scaled(weight, feature)
}

/// Scores one window under a weight vector.
pub fn calculate_drying_score(weather: &WeatherFeatures, weights: &DryingWeights) -> (r:
    DryingScore)
    ensures
        r.score == score_spec(*weather, *weights),
        r.unsafe_window == is_unsafe(*weather),
        r.features == normalize_spec(*weather),
        r.raw == *weather,
        r.vpd_kpa == vpd_spec(weather.temp_c as int, weather.rh as int),
        r.unsafe_window ==> r.score == UNSAFE_SCORE,
        r.features.in_unit_range(),
{
    let (features, vpd_kpa) = normalize_features(weather);
    let unsafe_window = weather.rain_p > VETO_RAIN_PROBABILITY || weather.rain_mm > VETO_RAIN_MM;
    if unsafe_window {
        return DryingScore {
            score: UNSAFE_SCORE,
            unsafe_window: true,
            features,
            raw: *weather,
            vpd_kpa,
        };
    }
    let mut score: i128 = weights.w0 as i128 + weighted(weights.w1, features.f_temp) + weighted(
        weights.w2,
        features.f_hum,
    ) + weighted(weights.w3, features.f_wind) + weighted(weights.w4, features.f_cloud) + weighted(
        weights.w5,
        features.f_rain,
    ) + weighted(weights.w6, features.f_vpd);
    if weather.temp_c < 18_000_000 {
        score = score - COLD_PENALTY as i128;
    }
    if weather.wind_ms < 1_000_000 {
        score = score - CALM_PENALTY as i128;
    }
    DryingScore {
        score: saturate_i128(score),
        unsafe_window: false,
        features,
        raw: *weather,
        vpd_kpa,
    }
}

/// A rate, label or weight as the learner reads it: forced into
/// `[-LIMIT, LIMIT]`.
pub open spec fn coerce(v: int) -> int {
    clamp_spec(v, -(LIMIT as int), LIMIT as int)
}

/// A feature or label as the learner reads it: forced into `[0, 1]`.
pub open spec fn unit(v: int) -> int {
    clamp_spec(v, 0, SCALE as int)
}

/// `z = w . x` over `x = [1, f_temp, f_hum, f_wind, f_cloud, f_rain, f_vpd]`.
pub open spec fn activation(weights: DryingWeights, f: NormalizedFeatures) -> int {
    coerce(weights.w0 as int) + mul_spec(coerce(weights.w1 as int), unit(f.f_temp as int))
        + mul_spec(coerce(weights.w2 as int), unit(f.f_hum as int)) + mul_spec(
        coerce(weights.w3 as int),
        unit(f.f_wind as int),
    ) + mul_spec(coerce(weights.w4 as int), unit(f.f_cloud as int)) + mul_spec(
        coerce(weights.w5 as int),
        unit(f.f_rain as int),
    ) + mul_spec(coerce(weights.w6 as int), unit(f.f_vpd as int))
}

/// `error = sigmoid(z) - feedback`.
pub open spec fn prediction_error(
    weights: DryingWeights,
    f: NormalizedFeatures,
    feedback: int,
) -> int {
    sigmoid_spec(activation(weights, f)) - unit(feedback)
}

/// What one update subtracts from a weight:
/// `learning_rate * (error * x + 2 * l2 * w)`.
pub open spec fn weight_step(w: int, x: int, error: int, learning_rate: int, l2: int) -> int {
    mul_spec(
        coerce(learning_rate),
        mul_spec(error, unit(x)) + mul_spec(2 * coerce(l2), coerce(w)),
    )
}

/// A weight after one update and the clamp into `[lo, hi]`.
pub open spec fn updated_weight(
    w: int,
    x: int,
    error: int,
    learning_rate: int,
    l2: int,
    lo: int,
    hi: int,
) -> int {
    clamp_spec(coerce(w) - weight_step(w, x, error, learning_rate, l2), lo, hi)
}

/// The weight vector after one step of regularised logistic regression on
/// a single sample.
pub open spec fn sgd_update_spec(
    weights: DryingWeights,
    f: NormalizedFeatures,
    feedback: int,
    learning_rate: int,
    l2: int,
) -> DryingWeights {
    let error = prediction_error(weights, f, feedback);
    DryingWeights {
        w0: updated_weight(
            weights.w0 as int,
            SCALE as int,
            error,
            learning_rate,
            l2,
            -500_000,
            500_000,
        ) as i64,
        w1: updated_weight(
            weights.w1 as int,
            f.f_temp as int,
            error,
            learning_rate,
            l2,
            0,
            500_000,
        ) as i64,
        w2: updated_weight(
            weights.w2 as int,
            f.f_hum as int,
            error,
            learning_rate,
            l2,
            0,
            500_000,
        ) as i64,
        w3: updated_weight(
            weights.w3 as int,
            f.f_wind as int,
            error,
            learning_rate,
            l2,
            0,
            500_000,
        ) as i64,
        w4: updated_weight(
            weights.w4 as int,
            f.f_cloud as int,
            error,
            learning_rate,
            l2,
            0,
            300_000,
        ) as i64,
        w5: updated_weight(
            weights.w5 as int,
            f.f_rain as int,
            error,
            learning_rate,
            l2,
            0,
            300_000,
        ) as i64,
        w6: updated_weight(
            weights.w6 as int,
            f.f_vpd as int,
            error,
            learning_rate,
            l2,
            0,
            500_000,
        ) as i64,
    }
}

/// One term of the activation.
fn activation_term(weight: i64, feature: i64) -> (r: i128)
    ensures
        r == mul_spec(coerce(weight as int), unit(feature as int)),
        -LIMIT <= r <= LIMIT,
{
    let w = clamp_i64(weight, -LIMIT, LIMIT);
    let x = clamp_i64(feature, 0, SCALE);
    assert(-LIMIT * SCALE <= w * x <= LIMIT * SCALE) by (nonlinear_arith)
        requires
            -LIMIT <= w <= LIMIT,
            0 <= x <= SCALE,
    ;
    mul_scaled(w, x)
}

/// Updates one weight and clamps it into `[lo, hi]`.
fn step_weight(
    w: i64,
    x: i64,
    error: i64,
    learning_rate: i64,
    l2: i64,
    lo: i64,
    hi: i64,
) -> (r: i64)
    requires
        -SCALE <= error <= SCALE,
        lo <= hi,
    ensures
        r == updated_weight(
            w as int,
            x as int,
            error as int,
            learning_rate as int,
            l2 as int,
            lo as int,
            hi as int,
        ),
        lo <= r <= hi,
{
    let cw = clamp_i64(w, -LIMIT, LIMIT);
    let cx = clamp_i64(x, 0, SCALE);
    let rate = clamp_i64(learning_rate, -LIMIT, LIMIT);
    let decay = clamp_i64(l2, -LIMIT, LIMIT);
    assert(-SCALE * SCALE <= error * cx <= SCALE * SCALE) by (nonlinear_arith)
        requires
            -SCALE <= error <= SCALE,
            0 <= cx <= SCALE,
    ;
    let push = mul_scaled(error, cx);
    assert(-2 * LIMIT * LIMIT <= (2 * decay) * cw <= 2 * LIMIT * LIMIT) by (nonlinear_arith)
        requires
            -LIMIT <= decay <= LIMIT,
            -LIMIT <= cw <= LIMIT,
    ;
    let pull = mul_scaled(2 * decay, cw);
    let gradient: i128 = push + pull;
    assert(-LIMIT * (3 * LIMIT * SCALE) <= rate * gradient <= LIMIT * (3 * LIMIT * SCALE))
        by (nonlinear_arith)
        requires
            -LIMIT <= rate <= LIMIT,
            -3 * LIMIT * SCALE <= gradient <= 3 * LIMIT * SCALE,
    ;
    let step = div_floor((rate as i128) * gradient, SCALE as i128);
    let moved: i128 = cw as i128 - step;
    let raised: i128 = if moved < lo as i128 { lo as i128 } else { moved };
    if raised > hi as i128 { hi } else { raised as i64 }
}

/// Updates the weight vector from one labelled sample by a step of
/// regularised logistic regression, then clamps every weight into its
/// documented range.
///
/// Features and the label are read as fractions of one, and rates and
/// weights with a magnitude of at most `LIMIT`; values outside are moved to
/// the nearer end first.
pub fn update_weights_sgd(
    weights: &mut DryingWeights,
    features: &NormalizedFeatures,
    feedback: i64,
    learning_rate: i64,
    regularization: i64,
)
    ensures
        *final(weights) == sgd_update_spec(
            *old(weights),
            *features,
            feedback as int,
            learning_rate as int,
            regularization as int,
        ),
        final(weights).in_bounds(),
{
    let z: i128 = clamp_i64(weights.w0, -LIMIT, LIMIT) as i128 + activation_term(
        weights.w1,
        features.f_temp,
    ) + activation_term(weights.w2, features.f_hum) + activation_term(
        weights.w3,
        features.f_wind,
    ) + activation_term(weights.w4, features.f_cloud) + activation_term(
        weights.w5,
        features.f_rain,
    ) + activation_term(weights.w6, features.f_vpd);
    let p = sigmoid_fixed(z);
    let error: i64 = p - clamp_i64(feedback, 0, SCALE);
    let w0 = step_weight(weights.w0, SCALE, error, learning_rate, regularization, -500_000, 500_000);
    let w1 = step_weight(
        weights.w1,
        features.f_temp,
        error,
        learning_rate,
        regularization,
        0,
        500_000,
    );
    let w2 = step_weight(
        weights.w2,
        features.f_hum,
        error,
        learning_rate,
        regularization,
        0,
        500_000,
    );
    let w3 = step_weight(
        weights.w3,
        features.f_wind,
        error,
        learning_rate,
        regularization,
        0,
        500_000,
    );
    let w4 = step_weight(
        weights.w4,
        features.f_cloud,
        error,
        learning_rate,
        regularization,
        0,
        300_000,
    );
    let w5 = step_weight(
        weights.w5,
        features.f_rain,
        error,
        learning_rate,
        regularization,
        0,
        300_000,
    );
    let w6 = step_weight(
        weights.w6,
        features.f_vpd,
        error,
        learning_rate,
        regularization,
        0,
        500_000,
    );
    *weights = DryingWeights { w0, w1, w2, w3, w4, w5, w6 };
}

/// How far the regularisation term pulls a weight down in one update,
/// before the learning rate is applied: `2 * l2 * w`.
pub open spec fn regularisation_pull(w: int, l2: int) -> int {
    mul_spec(2 * coerce(l2), coerce(w))
}

/// How far the prediction error pushes a weight up in one update, before
/// the learning rate is applied: `-error * x`.
pub open spec fn error_push(error: int, x: int) -> int {
    -mul_spec(error, unit(x))
}

/// The update takes the weight down: the step is positive, as it is where
/// regularisation outweighs the push of the error, the weight is above
/// its lower bound, and the stepped weight stays below its upper bound.
pub open spec fn update_lowers(
    w: int,
    x: int,
    error: int,
    learning_rate: int,
    l2: int,
    lo: int,
    hi: int,
) -> bool {
    let step = weight_step(w, x, error, learning_rate, l2);
    step > 0 && w > lo && coerce(w) - step < hi
}

/// An update leaves a weight at least where it was, or at its upper bound,
/// exactly where it does not take the weight down.
pub proof fn lemma_weight_rises_or_is_capped(
    w: int,
    x: int,
    error: int,
    learning_rate: int,
    l2: int,
    lo: int,
    hi: int,
)
    requires
        -LIMIT <= lo < hi <= LIMIT,
    ensures
        (updated_weight(w, x, error, learning_rate, l2, lo, hi) >= w || updated_weight(
            w,
            x,
            error,
            learning_rate,
            l2,
            lo,
            hi,
        ) == hi) <==> !update_lowers(w, x, error, learning_rate, l2, lo, hi),
{
}

/// Under a non-negative learning rate, an update does not take a weight
/// down where the regularisation pull does not exceed the push of the
/// error.
pub proof fn lemma_push_outweighs_pull(
    w: int,
    x: int,
    error: int,
    learning_rate: int,
    l2: int,
    lo: int,
    hi: int,
)
    requires
        learning_rate >= 0,
        regularisation_pull(w, l2) <= error_push(error, x),
    ensures
        !update_lowers(w, x, error, learning_rate, l2, lo, hi),
{
    let gradient = mul_spec(error, unit(x)) + mul_spec(2 * coerce(l2), coerce(w));
    let rate = coerce(learning_rate);
    assert(rate * gradient <= 0) by (nonlinear_arith)
        requires
            rate >= 0,
            gradient <= 0,
    ;
}

/// With the label 1.0 the prediction error is never positive, and every
/// weight whose feature is positive either increases or ends at its upper
/// bound, unless the update takes it down.
pub proof fn lemma_update_moves_towards_label(
    weights: DryingWeights,
    f: NormalizedFeatures,
    feedback: int,
    learning_rate: int,
    l2: int,
)
    requires
        feedback >= SCALE,
    ensures
        ({
            let error = prediction_error(weights, f, feedback);
            let next = sgd_update_spec(weights, f, feedback, learning_rate, l2);
            &&& error <= 0
            &&& !update_lowers(
                weights.w0 as int,
                SCALE as int,
                error,
                learning_rate,
                l2,
                -500_000,
                500_000,
            ) ==> next.w0 >= weights.w0 || next.w0 == 500_000
            &&& f.f_temp > 0 && !update_lowers(
                weights.w1 as int,
                f.f_temp as int,
                error,
                learning_rate,
                l2,
                0,
                500_000,
            ) ==> next.w1 >= weights.w1 || next.w1 == 500_000
            &&& f.f_hum > 0 && !update_lowers(
                weights.w2 as int,
                f.f_hum as int,
                error,
                learning_rate,
                l2,
                0,
                500_000,
            ) ==> next.w2 >= weights.w2 || next.w2 == 500_000
            &&& f.f_wind > 0 && !update_lowers(
                weights.w3 as int,
                f.f_wind as int,
                error,
                learning_rate,
                l2,
                0,
                500_000,
            ) ==> next.w3 >= weights.w3 || next.w3 == 500_000
            &&& f.f_cloud > 0 && !update_lowers(
                weights.w4 as int,
                f.f_cloud as int,
                error,
                learning_rate,
                l2,
                0,
                300_000,
            ) ==> next.w4 >= weights.w4 || next.w4 == 300_000
            &&& f.f_rain > 0 && !update_lowers(
                weights.w5 as int,
                f.f_rain as int,
                error,
                learning_rate,
                l2,
                0,
                300_000,
            ) ==> next.w5 >= weights.w5 || next.w5 == 300_000
            &&& f.f_vpd > 0 && !update_lowers(
                weights.w6 as int,
                f.f_vpd as int,
                error,
                learning_rate,
                l2,
                0,
                500_000,
            ) ==> next.w6 >= weights.w6 || next.w6 == 500_000
        }),
{
    let error = prediction_error(weights, f, feedback);
    lemma_sigmoid_in_unit_range(activation(weights, f));
    lemma_weight_rises_or_is_capped(
        weights.w0 as int,
        SCALE as int,
        error,
        learning_rate,
        l2,
        -500_000,
        500_000,
    );
    lemma_weight_rises_or_is_capped(
        weights.w1 as int,
        f.f_temp as int,
        error,
        learning_rate,
        l2,
        0,
        500_000,
    );
    lemma_weight_rises_or_is_capped(
        weights.w2 as int,
        f.f_hum as int,
        error,
        learning_rate,
        l2,
        0,
        500_000,
    );
    lemma_weight_rises_or_is_capped(
        weights.w3 as int,
        f.f_wind as int,
        error,
        learning_rate,
        l2,
        0,
        500_000,
    );
    lemma_weight_rises_or_is_capped(
        weights.w4 as int,
        f.f_cloud as int,
        error,
        learning_rate,
        l2,
        0,
        300_000,
    );
    lemma_weight_rises_or_is_capped(
        weights.w5 as int,
        f.f_rain as int,
        error,
        learning_rate,
        l2,
        0,
        300_000,
    );
    lemma_weight_rises_or_is_capped(
        weights.w6 as int,
        f.f_vpd as int,
        error,
        learning_rate,
        l2,
        0,
        500_000,
    );
}

/// Whatever the sample and the rates, the updated weights lie in their
/// documented ranges; so they do after any number of updates.
pub proof fn lemma_update_stays_in_bounds(
    weights: DryingWeights,
    f: NormalizedFeatures,
    feedback: int,
    learning_rate: int,
    l2: int,
)
    ensures
        sgd_update_spec(weights, f, feedback, learning_rate, l2).in_bounds(),
{
}

/// A window with more than 0.50 rain probability or more than 0.2 mm of
/// rain scores exactly -1.0, whatever its other features and the weights.
pub proof fn lemma_hard_veto(weather: WeatherFeatures, weights: DryingWeights)
    requires
        weather.rain_p > VETO_RAIN_PROBABILITY || weather.rain_mm > VETO_RAIN_MM,
    ensures
        is_unsafe(weather),
        score_spec(weather, weights) == UNSAFE_SCORE,
{
}

} // verus!

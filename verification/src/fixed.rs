//! Fixed-point arithmetic in millionths of a unit.
//!
//! A value `v: i64` stands for the rational number `v / SCALE`. Products are
//! formed in 128 bits and rounded down (towards negative infinity).

use vstd::prelude::*;

verus! {

/// The integer that stands for 1.0.
pub const SCALE: i64 = 1_000_000;

/// Largest magnitude that the learner accepts for a rate, a label or a
/// weight before it coerces the value: one million units.
pub const LIMIT: i64 = 1_000_000_000_000;

/// `v` forced into `[lo, hi]` the way `max(lo)` followed by `min(hi)` does it:
/// `hi` wins where the bounds cross.
pub open spec fn clamp_spec(v: int, lo: int, hi: int) -> int {
    let raised = if v < lo { lo } else { v };
    if raised > hi { hi } else { raised }
}

/// `v` forced into the range of `i64`.
pub open spec fn saturate(v: int) -> int {
    clamp_spec(v, i64::MIN as int, i64::MAX as int)
}

/// Product of two fixed-point numbers, rounded down.
pub open spec fn mul_spec(a: int, b: int) -> int {
    (a * b) / (SCALE as int)
}

/// `1 << n` as a mathematical integer.
pub open spec fn two_pow(n: nat) -> int
    decreases n,
{
    if n == 0 { 1 } else { 2 * two_pow((n - 1) as nat) }
}

/// Powers of two are positive and grow with the exponent.
pub proof fn lemma_two_pow_monotone(a: nat, b: nat)
    requires
        a <= b,
    ensures
        0 < two_pow(a) <= two_pow(b),
    decreases b,
{
    if a == b {
        lemma_two_pow_positive(a);
    } else {
        lemma_two_pow_monotone(a, (b - 1) as nat);
    }
}

/// Powers of two are positive.
pub proof fn lemma_two_pow_positive(a: nat)
    ensures
        0 < two_pow(a),
    decreases a,
{
    if a > 0 {
        lemma_two_pow_positive((a - 1) as nat);
    }
}

/// Clamps `v` into `[lo, hi]`.
pub fn clamp_i64(v: i64, lo: i64, hi: i64) -> (r: i64)
    ensures
        r == clamp_spec(v as int, lo as int, hi as int),
{
    let raised = if v < lo { lo } else { v };
    if raised > hi { hi } else { raised }
}

/// Narrows a wide intermediate to `i64`, saturating at the ends.
pub fn saturate_i128(v: i128) -> (r: i64)
    ensures
        r == saturate(v as int),
{
    if v < i64::MIN as i128 {
        i64::MIN
    } else if v > i64::MAX as i128 {
        i64::MAX
    } else {
        v as i64
    }
}

/// Floor division of a wide value by a positive divisor.
pub fn div_floor(n: i128, d: i128) -> (q: i128)
    requires
        d > 0,
    ensures
        q == (n as int) / (d as int),
{
    proof {
        lemma_div_bounds(n as int, d as int);
    }
    match n.checked_div_euclid(d) {
        Some(q) => q,
        None => 0,
    }
}

/// Dividing by a positive number never grows the magnitude.
pub proof fn lemma_div_bounds(n: int, d: int)
    requires
        d > 0,
    ensures
        n >= 0 ==> 0 <= n / d <= n,
        n < 0 ==> n <= n / d < 0,
{
    let q = n / d;
    let r = n % d;
    vstd::arithmetic::div_mod::lemma_fundamental_div_mod(n, d);
    vstd::arithmetic::div_mod::lemma_mod_bound(n, d);
    assert(n == d * q + r);
    if n >= 0 {
        assert(q >= 0 && q <= n) by (nonlinear_arith)
            requires n == d * q + r, 0 <= r < d, d > 0, n >= 0;
    } else {
        assert(q < 0 && n <= q) by (nonlinear_arith)
            requires n == d * q + r, 0 <= r < d, d > 0, n < 0;
    }
}

/// Fixed-point product of two 64-bit values, kept wide.
pub fn mul_scaled(a: i64, b: i64) -> (r: i128)
    ensures
        r == mul_spec(a as int, b as int),
        a >= 0 && b >= 0 ==> 0 <= r,
{
    assert(-0x8000_0000_0000_0000 * 0x8000_0000_0000_0000 <= a * b
        <= 0x8000_0000_0000_0000 * 0x8000_0000_0000_0000) by (nonlinear_arith)
        requires
            -0x8000_0000_0000_0000 <= a < 0x8000_0000_0000_0000,
            -0x8000_0000_0000_0000 <= b < 0x8000_0000_0000_0000,
    ;
    assert(a >= 0 && b >= 0 ==> a * b >= 0) by (nonlinear_arith);
    let p: i128 = (a as i128) * (b as i128);
    proof {
        lemma_div_bounds(p as int, SCALE as int);
    }
    div_floor(p, SCALE as i128)
}


/// ln 2, rounded down to millionths.
pub const LN2: i64 = 693_147;

/// The exponential is evaluated on `[-EXP_LIMIT, EXP_LIMIT]`; arguments
/// outside are moved to the nearer end.
pub const EXP_LIMIT: i64 = 20_000_000;

/// Degree of the Taylor polynomial used for the exponential.
pub const EXP_TERMS: u32 = 12;

/// The Taylor polynomial of `e^r` in Horner form, from term `k` inwards:
/// `1 + r/k * (1 + r/(k+1) * (...))`, each step rounded down.
pub open spec fn exp_series(r: int, k: nat) -> int
    decreases EXP_TERMS + 1 - k,
{
    if k == 0 || k > EXP_TERMS {
        SCALE as int
    } else {
        SCALE + mul_spec(r, exp_series(r, k + 1)) / (k as int)
    }
}

/// Fixed-point `e^x`: with `x = n * LN2 + r` and `0 <= r < LN2`, the
/// polynomial value at `r` shifted by `n` binary places.
pub open spec fn exp_spec(x: int) -> int {
    let c = clamp_spec(x, -(EXP_LIMIT as int), EXP_LIMIT as int);
    let n = c / (LN2 as int);
    let r = c % (LN2 as int);
    let h = exp_series(r, 1);
    if n >= 0 {
        h * two_pow(n as nat)
    } else {
        h / two_pow((-n) as nat)
    }
}

/// Fixed-point logistic function `1 / (1 + e^-z)`.
pub open spec fn sigmoid_spec(z: int) -> int {
    (SCALE * SCALE) / (SCALE + exp_spec(-z))
}

/// Evaluates the polynomial part of the exponential.
fn exp_fraction(r: i64) -> (h: i64)
    requires
        0 <= r < LN2,
    ensures
        h == exp_series(r as int, 1),
        SCALE <= h <= 3 * SCALE,
{
    let mut h: i64 = SCALE;
    let mut k: u32 = EXP_TERMS;
    while k > 0
        invariant
            0 <= r < LN2,
            k <= EXP_TERMS,
            h == exp_series(r as int, (k + 1) as nat),
            SCALE <= h <= 3 * SCALE,
            k >= 1 ==> h <= 2 * SCALE,
        decreases k,
    {
        assert(0 <= r * h <= LN2 * (2 * SCALE)) by (nonlinear_arith)
            requires
                0 <= r < LN2,
                0 <= h <= 2 * SCALE,
        ;
        let scaled: i64 = (r * h) / SCALE;
        let term: i64 = scaled / (k as i64);
        assert(term <= scaled) by {
            lemma_div_bounds(scaled as int, k as int);
        }
        assert(k >= 2 ==> term <= scaled / 2) by {
            if k >= 2 {
                vstd::arithmetic::div_mod::lemma_div_is_ordered_by_denominator(
                    scaled as int,
                    2,
                    k as int,
                );
            }
        }
        h = SCALE + term;
        k = k - 1;
    }
    h
}

/// Computes `two_pow(n)` for a small exponent.
fn two_pow_exec(n: u32) -> (p: i64)
    requires
        n <= 29,
    ensures
        p == two_pow(n as nat),
        1 <= p <= 536_870_912,
{
    let mut p: i64 = 1;
    let mut i: u32 = 0;
    proof {
        assert(two_pow(29) == 536_870_912) by {
            reveal_with_fuel(two_pow, 30);
        }
    }
    while i < n
        invariant
            i <= n <= 29,
            p == two_pow(i as nat),
            two_pow(29) == 536_870_912,
            1 <= p <= 536_870_912,
        decreases n - i,
    {
        proof {
            lemma_two_pow_monotone((i + 1) as nat, 29);
        }
        p = p * 2;
        i = i + 1;
    }
    p
}

/// Fixed-point exponential.
pub fn exp_fixed(x: i64) -> (y: i64)
    ensures
        y == exp_spec(x as int),
        0 <= y <= 3 * SCALE * 536_870_912,
{
    let c = clamp_i64(x, -EXP_LIMIT, EXP_LIMIT);
    let n: i64 = match c.checked_div_euclid(LN2) {
        Some(q) => q,
        None => 0,
    };
    let r: i64 = match c.checked_rem_euclid(LN2) {
        Some(m) => m,
        None => 0,
    };
    let h = exp_fraction(r);
    if n >= 0 {
        let p = two_pow_exec(n as u32);
        assert(0 <= h * p <= 3 * SCALE * 536_870_912) by (nonlinear_arith)
            requires
                0 <= h <= 3 * SCALE,
                0 <= p <= 536_870_912,
        ;
        h * p
    } else {
        let p = two_pow_exec((-n) as u32);
        proof {
            lemma_div_bounds(h as int, p as int);
        }
        h / p
    }
}

/// Fixed-point logistic function of a wide argument.
pub fn sigmoid_fixed(z: i128) -> (p: i64)
    ensures
        p == sigmoid_spec(z as int),
        0 <= p <= SCALE,
{
    let bounded: i64 = if z < -(EXP_LIMIT as i128) {
        -EXP_LIMIT
    } else if z > EXP_LIMIT as i128 {
        EXP_LIMIT
    } else {
        z as i64
    };
    let e = exp_fixed(-bounded);
    assert(exp_spec(-(z as int)) == exp_spec(-(bounded as int)));
    let denominator: i64 = SCALE + e;
    proof {
        lemma_div_bounds((SCALE * SCALE) as int, denominator as int);
        vstd::arithmetic::div_mod::lemma_div_is_ordered_by_denominator(
            (SCALE * SCALE) as int,
            SCALE as int,
            denominator as int,
        );
    }
    (SCALE * SCALE) / denominator
}

/// `b` raised to the power `e`.
pub open spec fn int_pow(b: int, e: nat) -> int
    decreases e,
{
    if e == 0 { 1 } else { b * int_pow(b, (e - 1) as nat) }
}

/// `t` is the `k`-th root of `v`, rounded down.
pub open spec fn is_floor_root(t: int, v: int, k: nat) -> bool {
    0 <= t && int_pow(t, k) <= v < int_pow(t + 1, k)
}

/// The `k`-th root of `v`, rounded down.
pub open spec fn floor_root(v: int, k: nat) -> int {
    choose|t: int| is_floor_root(t, v, k)
}

/// Powers of non-negative bases grow with the base, strictly so for a
/// positive exponent.
pub proof fn lemma_int_pow_monotone(a: int, b: int, k: nat)
    requires
        0 <= a <= b,
    ensures
        0 <= int_pow(a, k) <= int_pow(b, k),
        a < b && k >= 1 ==> int_pow(a, k) < int_pow(b, k),
        b >= 1 ==> int_pow(b, k) >= 1,
    decreases k,
{
    if k > 0 {
        lemma_int_pow_monotone(a, b, (k - 1) as nat);
        let pa = int_pow(a, (k - 1) as nat);
        let pb = int_pow(b, (k - 1) as nat);
        assert(0 <= a * pa <= b * pb) by (nonlinear_arith)
            requires
                0 <= a <= b,
                0 <= pa <= pb,
        ;
        if a < b {
            assert(a * pa < b * pb) by (nonlinear_arith)
                requires
                    0 <= a < b,
                    0 <= pa <= pb,
                    pb >= 1,
            ;
        }
        if b >= 1 {
            assert(b * pb >= 1) by (nonlinear_arith)
                requires
                    b >= 1,
                    pb >= 1,
            ;
        }
    }
}

/// Powers of a base of at least one grow with the exponent; powers of
/// zero are at most one.
pub proof fn lemma_int_pow_grows_with_exponent(b: int, i: nat, k: nat)
    requires
        0 <= b,
        i <= k,
    ensures
        b >= 1 ==> int_pow(b, i) <= int_pow(b, k),
        b == 0 ==> int_pow(b, i) <= 1,
    decreases k,
{
    if i < k {
        lemma_int_pow_grows_with_exponent(b, i, (k - 1) as nat);
        lemma_int_pow_monotone(b, b, (k - 1) as nat);
        let pb = int_pow(b, (k - 1) as nat);
        if b >= 1 {
            assert(pb <= b * pb) by (nonlinear_arith)
                requires
                    b >= 1,
                    pb >= 0,
            ;
        }
    } else if b == 0 && i > 0 {
        assert(int_pow(b, i) == 0 * int_pow(b, (i - 1) as nat));
    }
}

/// A rounded-down root is unique, so `floor_root` names it.
pub proof fn lemma_floor_root_unique(t: int, v: int, k: nat)
    requires
        is_floor_root(t, v, k),
    ensures
        floor_root(v, k) == t,
{
    let u = floor_root(v, k);
    assert(is_floor_root(u, v, k));
    if u < t {
        lemma_int_pow_monotone(u + 1, t, k);
    } else if t < u {
        lemma_int_pow_monotone(t + 1, u, k);
    }
}

/// Raises `b` to the power `k`.
fn pow_exec(b: u64, k: u32) -> (p: u128)
    requires
        int_pow(b as int, k as nat) <= u128::MAX,
    ensures
        p == int_pow(b as int, k as nat),
{
    let mut p: u128 = 1;
    let mut i: u32 = 0;
    while i < k
        invariant
            i <= k,
            p == int_pow(b as int, i as nat),
            int_pow(b as int, k as nat) <= u128::MAX,
        decreases k - i,
    {
        proof {
            lemma_int_pow_grows_with_exponent(b as int, (i + 1) as nat, k as nat);
            assert(int_pow(b as int, (i + 1) as nat) == b * int_pow(b as int, i as nat));
            assert(p * b == b * p) by (nonlinear_arith);
        }
        p = p * (b as u128);
        i = i + 1;
    }
    p
}

/// Finds the rounded-down `k`-th root of `v` by bisection below `top`.
pub fn floor_root_exec(v: u128, k: u32, top: u64) -> (t: u64)
    requires
        k >= 1,
        top < u64::MAX,
        v < int_pow(top + 1, k as nat) <= u128::MAX,
    ensures
        is_floor_root(t as int, v as int, k as nat),
        t == floor_root(v as int, k as nat),
        t <= top,
{
    let mut lo: u64 = 0;
    let mut hi: u64 = top + 1;
    proof {
        lemma_int_pow_grows_with_exponent(0, 1, k as nat);
        assert(int_pow(0, k as nat) == 0 * int_pow(0, (k - 1) as nat));
    }
    while hi - lo > 1
        invariant
            k >= 1,
            lo < hi <= top + 1,
            top < u64::MAX,
            int_pow(lo as int, k as nat) <= v < int_pow(hi as int, k as nat),
            int_pow(top + 1, k as nat) <= u128::MAX,
        decreases hi - lo,
    {
        let mid: u64 = lo + (hi - lo) / 2;
        proof {
            lemma_int_pow_monotone(mid as int, top + 1, k as nat);
        }
        let pm = pow_exec(mid, k);
        if pm <= v {
            lo = mid;
        } else {
            hi = mid;
        }
    }
    proof {
        lemma_floor_root_unique(lo as int, v as int, k as nat);
    }
    lo
}

/// Fixed-point `x^0.7` on the unit interval, as `sqrt(x)` times the fifth
/// root of `x`; arguments outside `[0, 1]` are moved to the nearer end.
pub open spec fn pow07_spec(x: int) -> int {
    let c = clamp_spec(x, 0, SCALE as int);
    mul_spec(floor_root(c * SCALE, 2), floor_root(c * SCALE * SCALE * SCALE * SCALE, 5))
}

/// Fixed-point `x^0.7` on the unit interval.
pub fn pow07_fixed(x: i64) -> (y: i64)
    ensures
        y == pow07_spec(x as int),
        0 <= y <= SCALE,
{
    let c = clamp_i64(x, 0, SCALE);
    proof {
        assert(int_pow(SCALE + 1, 2) == (SCALE + 1) * (SCALE + 1)) by {
            reveal_with_fuel(int_pow, 3);
        }
        assert(int_pow(SCALE + 1, 5) == (SCALE + 1) * ((SCALE + 1) * ((SCALE + 1) * ((SCALE + 1)
            * (SCALE + 1))))) by {
            reveal_with_fuel(int_pow, 6);
        }
        assert((SCALE + 1) * ((SCALE + 1) * ((SCALE + 1) * ((SCALE + 1) * (SCALE + 1))))
            == 1_000_005_000_010_000_010_000_005_000_001) by (nonlinear_arith);
        assert(c * SCALE * SCALE * SCALE * SCALE <= 1_000_000_000_000_000_000_000_000_000_000)
            by (nonlinear_arith)
            requires
                0 <= c <= SCALE,
        ;
        assert(0 <= c * SCALE * SCALE * SCALE * SCALE) by (nonlinear_arith)
            requires
                0 <= c <= SCALE,
        ;
    }
    let wide: u128 = c as u128;
    let unit: u128 = SCALE as u128;
    let s = floor_root_exec(wide * unit, 2, SCALE as u64);
    let f = floor_root_exec(wide * unit * unit * unit * unit, 5, SCALE as u64);
    assert(0 <= s * f <= SCALE * SCALE) by (nonlinear_arith)
        requires
            0 <= s <= SCALE,
            0 <= f <= SCALE,
    ;
    (s as i64) * (f as i64) / SCALE
}

/// The polynomial of the exponential is at least 1 for a non-negative
/// argument.
pub proof fn lemma_exp_series_at_least_one(r: int, k: nat)
    requires
        r >= 0,
    ensures
        exp_series(r, k) >= SCALE,
    decreases EXP_TERMS + 1 - k,
{
    if !(k == 0 || k > EXP_TERMS) {
        lemma_exp_series_at_least_one(r, k + 1);
        let inner = exp_series(r, k + 1);
        assert(r * inner >= 0) by (nonlinear_arith)
            requires
                r >= 0,
                inner >= 0,
        ;
        lemma_div_bounds(mul_spec(r, inner), k as int);
    }
}

/// The fixed-point exponential is never negative.
pub proof fn lemma_exp_nonnegative(x: int)
    ensures
        exp_spec(x) >= 0,
{
    let c = clamp_spec(x, -(EXP_LIMIT as int), EXP_LIMIT as int);
    let n = c / (LN2 as int);
    let r = c % (LN2 as int);
    lemma_exp_series_at_least_one(r, 1);
    let h = exp_series(r, 1);
    if n >= 0 {
        lemma_two_pow_positive(n as nat);
        let p = two_pow(n as nat);
        assert(h * p >= 0) by (nonlinear_arith)
            requires
                h >= 0,
                p > 0,
        ;
    } else {
        lemma_two_pow_positive((-n) as nat);
        lemma_div_bounds(h, two_pow((-n) as nat));
    }
}

/// The fixed-point logistic function takes its values in `[0, 1]`.
pub proof fn lemma_sigmoid_in_unit_range(z: int)
    ensures
        0 <= sigmoid_spec(z) <= SCALE,
{
    lemma_exp_nonnegative(-z);
    let denominator = SCALE + exp_spec(-z);
    lemma_div_bounds(SCALE * SCALE, denominator);
    vstd::arithmetic::div_mod::lemma_div_is_ordered_by_denominator(
        SCALE * SCALE,
        SCALE as int,
        denominator,
    );
}

/// Fixed-point product of two wide values.
pub fn mul_wide(a: i128, b: i128) -> (r: i128)
    requires
        -0x8000_0000_0010_0000 <= a <= 0x8000_0000_0010_0000,
        -0x8000_0000_0000_0000 <= b <= 0x8000_0000_0000_0000,
    ensures
        r == mul_spec(a as int, b as int),
{
    assert(-0x8000_0000_0010_0000 * 0x8000_0000_0000_0000 <= a * b <= 0x8000_0000_0010_0000
        * 0x8000_0000_0000_0000) by (nonlinear_arith)
        requires
            -0x8000_0000_0010_0000 <= a <= 0x8000_0000_0010_0000,
            -0x8000_0000_0000_0000 <= b <= 0x8000_0000_0000_0000,
    ;
    div_floor(a * b, SCALE as i128)
}

/// `v * numerator / denominator`, rounded down and saturated to 64 bits.
pub open spec fn ratio_spec(v: int, numerator: int, denominator: int) -> int {
    saturate((v * numerator) / denominator)
}

/// Multiplies by a small ratio, rounding down and saturating.
pub fn ratio(v: i128, numerator: i64, denominator: i64) -> (r: i64)
    requires
        -0x8000_0001_0000_0000 <= v <= 0x8000_0001_0000_0000,
        0 < numerator <= 1_000_000,
        0 < denominator <= 1_000_000,
    ensures
        r == ratio_spec(v as int, numerator as int, denominator as int),
{
    assert(-0x8000_0001_0000_0000 * 1_000_000 <= v * numerator <= 0x8000_0001_0000_0000
        * 1_000_000) by (nonlinear_arith)
        requires
            -0x8000_0001_0000_0000 <= v <= 0x8000_0001_0000_0000,
            0 < numerator <= 1_000_000,
    ;
    saturate_i128(div_floor(v * (numerator as i128), denominator as i128))
}

/// A power of a positive base is at least the base.
proof fn lemma_int_pow_at_least_base(b: int, k: nat)
    requires
        b >= 1,
        k >= 1,
    ensures
        int_pow(b, k) >= b,
    decreases k,
{
    lemma_int_pow_monotone(b, b, (k - 1) as nat);
    let rest = int_pow(b, (k - 1) as nat);
    assert(b * rest >= b) by (nonlinear_arith)
        requires
            b >= 1,
            rest >= 1,
    ;
}

/// From any `t` whose power does not exceed `v`, a rounded-down root is
/// found at or above `t`.
proof fn lemma_floor_root_search(t: int, v: int, k: nat)
    requires
        0 <= t,
        k >= 1,
        int_pow(t, k) <= v,
    ensures
        exists|r: int| t <= r <= v && is_floor_root(r, v, k),
    decreases v - t,
{
    lemma_int_pow_at_least_base(t + 1, k);
    if int_pow(t + 1, k) > v {
        if t >= 1 {
            lemma_int_pow_at_least_base(t, k);
        } else {
            lemma_int_pow_monotone(0, 0, k);
        }
        assert(is_floor_root(t, v, k));
    } else {
        lemma_floor_root_search(t + 1, v, k);
    }
}

/// Every non-negative number has a rounded-down root, and `floor_root`
/// is it.
pub proof fn lemma_floor_root_exists(v: int, k: nat)
    requires
        v >= 0,
        k >= 1,
    ensures
        is_floor_root(floor_root(v, k), v, k),
        0 <= floor_root(v, k) <= v,
{
    assert(int_pow(0, k) == 0 * int_pow(0, (k - 1) as nat));
    lemma_floor_root_search(0, v, k);
    let r = choose|r: int| 0 <= r <= v && is_floor_root(r, v, k);
    lemma_floor_root_unique(r, v, k);
}

/// The fixed-point power `x^0.7` takes its values in `[0, 1]`.
pub proof fn lemma_pow07_in_unit_range(x: int)
    ensures
        0 <= pow07_spec(x) <= SCALE,
{
    let c = clamp_spec(x, 0, SCALE as int);
    let square = c * SCALE;
    let fifth = c * SCALE * SCALE * SCALE * SCALE;
    assert(0 <= square <= SCALE * SCALE) by (nonlinear_arith)
        requires
            0 <= c <= SCALE,
            square == c * SCALE,
    ;
    assert(0 <= fifth <= SCALE * SCALE * SCALE * SCALE * SCALE) by (nonlinear_arith)
        requires
            0 <= c <= SCALE,
            fifth == c * SCALE * SCALE * SCALE * SCALE,
    ;
    lemma_floor_root_exists(square, 2);
    lemma_floor_root_exists(fifth, 5);
    let s = floor_root(square, 2);
    let f = floor_root(fifth, 5);
    assert(int_pow(SCALE as int, 2) == SCALE * SCALE) by {
        reveal_with_fuel(int_pow, 3);
    }
    assert(int_pow(SCALE as int, 5) == SCALE * SCALE * SCALE * SCALE * SCALE) by {
        reveal_with_fuel(int_pow, 6);
        assert(SCALE * (SCALE * (SCALE * (SCALE * (SCALE * 1)))) == SCALE * SCALE * SCALE * SCALE
            * SCALE) by (nonlinear_arith);
    }
    if s > SCALE {
        lemma_int_pow_monotone(SCALE + 1, s, 2);
        lemma_int_pow_monotone(SCALE as int, SCALE + 1, 2);
    }
    if f > SCALE {
        lemma_int_pow_monotone(SCALE + 1, f, 5);
        lemma_int_pow_monotone(SCALE as int, SCALE + 1, 5);
    }
    assert(0 <= s * f <= SCALE * SCALE) by (nonlinear_arith)
        requires
            0 <= s <= SCALE,
            0 <= f <= SCALE,
    ;
}

} // verus!

//! The Black-Scholes formulas in exact arithmetic.
//!
//! These are statements over the real numbers. The transcendental pieces (the
//! logarithm of the moneyness, the square root of the time to expiration, the
//! discount factor and the normal distribution) enter as values or as a
//! function, constrained only by the facts that each law needs. Nothing here
//! speaks of rounding: what a machine computes in floating point is related
//! to these values only as far as its arithmetic is exact.
use vstd::prelude::*;
use crate::distribution::{exact_std_cdf, is_odd, lemma_std_cdf_symmetric};
use crate::option_type::OptionType;

verus! {

/// The sign of the kind as a real number.
pub open spec fn exact_sign(kind: OptionType) -> real {
    match kind {
        OptionType::Call => 1real,
        OptionType::Put => -1real,
    }
}

/// The first moneyness, `(ln(s/k) + (r + v^2/2) t) / (v sqrt(t))`, where
/// `log_moneyness` stands for `ln(s/k)` and `root_t` for `sqrt(t)`.
pub open spec fn exact_d1(log_moneyness: real, r: real, v: real, t: real, root_t: real) -> real {
    (log_moneyness + (r + v * v / 2real) * t) / (v * root_t)
}

/// The second moneyness, `(ln(s/k) + (r - v^2/2) t) / (v sqrt(t))`.
pub open spec fn exact_d2(log_moneyness: real, r: real, v: real, t: real, root_t: real) -> real {
    (log_moneyness + (r - v * v / 2real) * t) / (v * root_t)
}

/// Delta: `N(d1)` for a call, `-N(-d1)` for a put, where `n` is the
/// cumulative distribution.
pub open spec fn exact_delta(kind: OptionType, n: spec_fn(real) -> real, d1: real) -> real {
    exact_sign(kind) * n(exact_sign(kind) * d1)
}

/// Rho: `k t D N(d2)` for a call, `-k t D N(-d2)` for a put, where `discount`
/// is `D = exp(-r t)`.
pub open spec fn exact_rho(
    kind: OptionType,
    n: spec_fn(real) -> real,
    k: real,
    t: real,
    discount: real,
    d2: real,
) -> real {
    exact_sign(kind) * k * t * discount * n(exact_sign(kind) * d2)
}

/// Gamma, from the density at `d1`. It is the same for a call and a put.
pub open spec fn exact_gamma(s: real, v: real, root_t: real, density: real) -> real {
    density / (s * v * root_t)
}

/// Vega, from the density at `d1`. It is the same for a call and a put.
pub open spec fn exact_vega(s: real, root_t: real, density: real) -> real {
    s * density * root_t
}

/// Theta, from vega and rho.
pub open spec fn exact_theta(v: real, r: real, t: real, vega: real, rho: real) -> real {
    -v * (1real / 2real) * vega / t - r * rho / t
}

/// The price, recombined from delta and rho.
pub open spec fn exact_price(s: real, t: real, delta: real, rho: real) -> real {
    s * delta - rho / t
}

/// The price of an option of the given kind, from the parameters, the two
/// moneyness values, the discount factor and the distribution.
pub open spec fn exact_price_of(
    kind: OptionType,
    n: spec_fn(real) -> real,
    k: real,
    s: real,
    t: real,
    discount: real,
    d1: real,
    d2: real,
) -> real {
    exact_price(s, t, exact_delta(kind, n, d1), exact_rho(kind, n, k, t, discount, d2))
}

/// The real sign is the integer sign that `OptionType::sign` returns.
pub proof fn lemma_exact_sign(kind: OptionType)
    ensures
        exact_sign(kind) == kind.spec_sign() as real,
        exact_sign(kind) * exact_sign(kind) == 1real,
{
}

/// The two moneyness values differ by `v sqrt(t)`.
pub proof fn lemma_d1_minus_d2(log_moneyness: real, r: real, v: real, t: real, root_t: real)
    requires
        v > 0real,
        root_t > 0real,
        root_t * root_t == t,
    ensures
        exact_d1(log_moneyness, r, v, t, root_t) - exact_d2(log_moneyness, r, v, t, root_t) == v
            * root_t,
{
    let a = log_moneyness + (r + v * v / 2real) * t;
    let b = log_moneyness + (r - v * v / 2real) * t;
    let c = v * root_t;
    assert(c > 0real) by (nonlinear_arith)
        requires
            c == v * root_t,
            v > 0real,
            root_t > 0real,
    ;
    assert(a - b == c * c) by (nonlinear_arith)
        requires
            a == log_moneyness + (r + v * v / 2real) * t,
            b == log_moneyness + (r - v * v / 2real) * t,
            c == v * root_t,
            root_t * root_t == t,
    ;
    assert(a / c - b / c == c) by (nonlinear_arith)
        requires
            a - b == c * c,
            c > 0real,
    ;
}

/// Delta lies strictly between 0 and 1 for a call and strictly between -1
/// and 0 for a put, wherever the distribution's value lies strictly between
/// 0 and 1.
pub proof fn lemma_delta_range(kind: OptionType, n: spec_fn(real) -> real, d1: real)
    requires
        0real < n(exact_sign(kind) * d1) < 1real,
    ensures
        kind == OptionType::Call ==> 0real < exact_delta(kind, n, d1) < 1real,
        kind == OptionType::Put ==> -1real < exact_delta(kind, n, d1) < 0real,
{
}

/// Gamma and vega are never negative: the density is not, and the underlying
/// price, the volatility and the time to expiration are positive.
pub proof fn lemma_gamma_vega_nonnegative(s: real, v: real, root_t: real, density: real)
    requires
        s > 0real,
        v > 0real,
        root_t > 0real,
        density >= 0real,
    ensures
        exact_gamma(s, v, root_t, density) >= 0real,
        exact_vega(s, root_t, density) >= 0real,
{
    let c = s * v * root_t;
    assert(c > 0real) by (nonlinear_arith)
        requires
            c == s * v * root_t,
            s > 0real,
            v > 0real,
            root_t > 0real,
    ;
    assert(density / c >= 0real) by (nonlinear_arith)
        requires
            c > 0real,
            density >= 0real,
    ;
    assert(s * density * root_t >= 0real) by (nonlinear_arith)
        requires
            s > 0real,
            root_t > 0real,
            density >= 0real,
    ;
}

/// The recombined price is the textbook closed form: `s N(d1) - k D N(d2)`
/// for a call and `k D N(-d2) - s N(-d1)` for a put.
pub proof fn lemma_price_closed_form(
    kind: OptionType,
    n: spec_fn(real) -> real,
    k: real,
    s: real,
    t: real,
    discount: real,
    d1: real,
    d2: real,
)
    requires
        t > 0real,
    ensures
        kind == OptionType::Call ==> exact_price_of(kind, n, k, s, t, discount, d1, d2) == s * n(d1)
            - k * discount * n(d2),
        kind == OptionType::Put ==> exact_price_of(kind, n, k, s, t, discount, d1, d2) == k
            * discount * n(-d2) - s * n(-d1),
{
    let e = exact_sign(kind);
    let a = n(e * d1);
    let b = n(e * d2);
    let rho = exact_rho(kind, n, k, t, discount, d2);
    assert(rho / t == e * (k * discount * b)) by (nonlinear_arith)
        requires
            rho == e * k * t * discount * b,
            t > 0real,
    ;
    assert(s * (e * a) == e * (s * a)) by (nonlinear_arith);
}

/// Put-call parity: for the same parameters the price of the call exceeds
/// that of the put by `s - k D`, given a distribution whose values at `d` and
/// `-d` add up to one at both moneyness values.
pub proof fn lemma_put_call_parity(
    n: spec_fn(real) -> real,
    k: real,
    s: real,
    t: real,
    discount: real,
    d1: real,
    d2: real,
)
    requires
        t > 0real,
        n(d1) + n(-d1) == 1real,
        n(d2) + n(-d2) == 1real,
    ensures
        exact_price_of(OptionType::Call, n, k, s, t, discount, d1, d2) - exact_price_of(
            OptionType::Put,
            n,
            k,
            s,
            t,
            discount,
            d1,
            d2,
        ) == s - k * discount,
{
    lemma_price_closed_form(OptionType::Call, n, k, s, t, discount, d1, d2);
    lemma_price_closed_form(OptionType::Put, n, k, s, t, discount, d1, d2);
    let kd = k * discount;
    assert(s * n(d1) + s * n(-d1) == s) by (nonlinear_arith)
        requires
            n(d1) + n(-d1) == 1real,
    ;
    assert(kd * n(d2) + kd * n(-d2) == kd) by (nonlinear_arith)
        requires
            n(d2) + n(-d2) == 1real,
    ;
}

/// Put-call parity under the standard normal: with the cumulative
/// distribution built from any odd error function, the price of the call
/// exceeds that of the put by `s - k D`.
pub proof fn lemma_std_put_call_parity(
    erf: spec_fn(real) -> real,
    root_two: real,
    k: real,
    s: real,
    t: real,
    discount: real,
    d1: real,
    d2: real,
)
    requires
        is_odd(erf),
        root_two > 0real,
        t > 0real,
    ensures
        exact_price_of(OptionType::Call, exact_std_cdf(erf, root_two), k, s, t, discount, d1, d2)
            - exact_price_of(
            OptionType::Put,
            exact_std_cdf(erf, root_two),
            k,
            s,
            t,
            discount,
            d1,
            d2,
        ) == s - k * discount,
{
    lemma_std_cdf_symmetric(erf, root_two, d1);
    lemma_std_cdf_symmetric(erf, root_two, d2);
    lemma_put_call_parity(exact_std_cdf(erf, root_two), k, s, t, discount, d1, d2);
}

} // verus!

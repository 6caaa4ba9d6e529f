//! The normal distribution in exact arithmetic.
//!
//! The density and the cumulative distribution are stated over the real
//! numbers, with the exponential and the error function as parameters: a law
//! names the facts about them that it rests on, and holds of every function
//! that has them.
use vstd::prelude::*;

verus! {

/// `f(-y) = -f(y)` everywhere.
pub open spec fn is_odd(f: spec_fn(real) -> real) -> bool {
    forall|y: real| f(-y) == -#[trigger] f(y)
}

/// `f` never decreases.
pub open spec fn is_nondecreasing(f: spec_fn(real) -> real) -> bool {
    forall|a: real, b: real| a <= b ==> #[trigger] f(a) <= #[trigger] f(b)
}

/// The argument of the exponential in the density: `-(x - mean)^2 / (2 std_dev^2)`.
pub open spec fn exact_exponent(mean: real, std_dev: real, x: real) -> real {
    -((x - mean) * (x - mean)) / (2real * (std_dev * std_dev))
}

/// The density at `x`: `exp(-(x - mean)^2 / (2 std_dev^2)) / (std_dev sqrt(2 pi))`,
/// where `root_two_pi` stands for `sqrt(2 pi)`.
pub open spec fn exact_pdf(
    exp: spec_fn(real) -> real,
    root_two_pi: real,
    mean: real,
    std_dev: real,
    x: real,
) -> real {
    exp(exact_exponent(mean, std_dev, x)) / (std_dev * root_two_pi)
}

/// The cumulative distribution at `x`:
/// `(1 + erf((x - mean) / (std_dev sqrt(2)))) / 2`, where `root_two` stands
/// for `sqrt(2)`.
pub open spec fn exact_cdf(
    erf: spec_fn(real) -> real,
    root_two: real,
    mean: real,
    std_dev: real,
    x: real,
) -> real {
    (1real / 2real) * (1real + erf((x - mean) / (std_dev * root_two)))
}

/// The cumulative distribution of the standard normal, mean 0 and standard
/// deviation 1, as a function of the point.
pub open spec fn exact_std_cdf(erf: spec_fn(real) -> real, root_two: real) -> spec_fn(real) -> real {
    |x: real| exact_cdf(erf, root_two, 0real, 1real, x)
}

/// The density takes the same value at equal distances on both sides of the
/// mean.
pub proof fn lemma_pdf_symmetric(
    exp: spec_fn(real) -> real,
    root_two_pi: real,
    mean: real,
    std_dev: real,
    h: real,
)
    ensures
        exact_pdf(exp, root_two_pi, mean, std_dev, mean + h) == exact_pdf(
            exp,
            root_two_pi,
            mean,
            std_dev,
            mean - h,
        ),
{
    let a = mean + h - mean;
    let b = mean - h - mean;
    assert(a * a == b * b) by (nonlinear_arith)
        requires
            a == -b,
    ;
}

/// The density has a single mode at the mean: of two points, it is at least
/// as large at the one that is not farther from the mean. With `x = mean` it
/// says that the density is greatest at the mean.
pub proof fn lemma_pdf_unimodal(
    exp: spec_fn(real) -> real,
    root_two_pi: real,
    mean: real,
    std_dev: real,
    x: real,
    y: real,
)
    requires
        is_nondecreasing(exp),
        std_dev > 0real,
        root_two_pi > 0real,
        (x - mean) * (x - mean) <= (y - mean) * (y - mean),
    ensures
        exact_pdf(exp, root_two_pi, mean, std_dev, y) <= exact_pdf(
            exp,
            root_two_pi,
            mean,
            std_dev,
            x,
        ),
{
    let p = (x - mean) * (x - mean);
    let q = (y - mean) * (y - mean);
    let w = 2real * (std_dev * std_dev);
    let c = std_dev * root_two_pi;
    assert(w > 0real) by (nonlinear_arith)
        requires
            w == 2real * (std_dev * std_dev),
            std_dev > 0real,
    ;
    assert(-q / w <= -p / w) by (nonlinear_arith)
        requires
            p <= q,
            w > 0real,
    ;
    let ey = exp(exact_exponent(mean, std_dev, y));
    let ex = exp(exact_exponent(mean, std_dev, x));
    assert(ey <= ex);
    assert(c > 0real) by (nonlinear_arith)
        requires
            c == std_dev * root_two_pi,
            std_dev > 0real,
            root_two_pi > 0real,
    ;
    assert(ey / c <= ex / c) by (nonlinear_arith)
        requires
            ey <= ex,
            c > 0real,
    ;
}

/// At the mean the cumulative distribution is one half, for an error
/// function that vanishes at zero.
pub proof fn lemma_cdf_at_mean(
    erf: spec_fn(real) -> real,
    root_two: real,
    mean: real,
    std_dev: real,
)
    requires
        erf(0real) == 0real,
        std_dev > 0real,
        root_two > 0real,
    ensures
        exact_cdf(erf, root_two, mean, std_dev, mean) == 1real / 2real,
{
    let c = std_dev * root_two;
    assert(c > 0real) by (nonlinear_arith)
        requires
            c == std_dev * root_two,
            std_dev > 0real,
            root_two > 0real,
    ;
    assert((mean - mean) / c == 0real) by (nonlinear_arith)
        requires
            c > 0real,
    ;
}

/// The cumulative distribution lies strictly between 0 and 1 wherever the
/// error function lies strictly between -1 and 1.
pub proof fn lemma_cdf_range(
    erf: spec_fn(real) -> real,
    root_two: real,
    mean: real,
    std_dev: real,
    x: real,
)
    requires
        -1real < erf((x - mean) / (std_dev * root_two)) < 1real,
    ensures
        0real < exact_cdf(erf, root_two, mean, std_dev, x) < 1real,
{
}

/// For an odd error function, the values of the cumulative distribution at
/// equal distances on both sides of the mean add up to one.
pub proof fn lemma_cdf_symmetric(
    erf: spec_fn(real) -> real,
    root_two: real,
    mean: real,
    std_dev: real,
    h: real,
)
    requires
        is_odd(erf),
        std_dev > 0real,
        root_two > 0real,
    ensures
        exact_cdf(erf, root_two, mean, std_dev, mean + h) + exact_cdf(
            erf,
            root_two,
            mean,
            std_dev,
            mean - h,
        ) == 1real,
{
    let c = std_dev * root_two;
    assert(c > 0real) by (nonlinear_arith)
        requires
            c == std_dev * root_two,
            std_dev > 0real,
            root_two > 0real,
    ;
    let z = (mean + h - mean) / c;
    assert((mean - h - mean) / c == -z) by (nonlinear_arith)
        requires
            z == (mean + h - mean) / c,
            c > 0real,
    ;
    assert(erf(-z) == -erf(z));
}

/// For an error function that never decreases, neither does the cumulative
/// distribution.
pub proof fn lemma_cdf_nondecreasing(
    erf: spec_fn(real) -> real,
    root_two: real,
    mean: real,
    std_dev: real,
    x: real,
    y: real,
)
    requires
        is_nondecreasing(erf),
        std_dev > 0real,
        root_two > 0real,
        x <= y,
    ensures
        exact_cdf(erf, root_two, mean, std_dev, x) <= exact_cdf(erf, root_two, mean, std_dev, y),
{
    let c = std_dev * root_two;
    assert(c > 0real) by (nonlinear_arith)
        requires
            c == std_dev * root_two,
            std_dev > 0real,
            root_two > 0real,
    ;
    assert((x - mean) / c <= (y - mean) / c) by (nonlinear_arith)
        requires
            x <= y,
            c > 0real,
    ;
    assert(erf((x - mean) / c) <= erf((y - mean) / c));
}

/// For the standard normal with an odd error function, the values of the
/// cumulative distribution at `x` and `-x` add up to one.
pub proof fn lemma_std_cdf_symmetric(erf: spec_fn(real) -> real, root_two: real, x: real)
    requires
        is_odd(erf),
        root_two > 0real,
    ensures
        exact_std_cdf(erf, root_two)(x) + exact_std_cdf(erf, root_two)(-x) == 1real,
{
    lemma_cdf_symmetric(erf, root_two, 0real, 1real, x);
    assert(0real + x == x);
    assert(0real - x == -x);
}

} // verus!

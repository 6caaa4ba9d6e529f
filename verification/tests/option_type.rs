use black_scholes::OptionType;
use statrs::function::erf::erf;

#[test]
fn sign_of_a_call_is_plus_one() {
    assert_eq!(OptionType::Call.sign(), 1);
}

#[test]
fn sign_of_a_put_is_minus_one() {
    assert_eq!(OptionType::Put.sign(), -1);
}

#[test]
fn signs_of_the_two_kinds_cancel() {
    assert_eq!(OptionType::Call.sign() + OptionType::Put.sign(), 0);
    assert_ne!(OptionType::Call.sign(), OptionType::Put.sign());
}

#[test]
fn sign_is_its_own_inverse() {
    for kind in [OptionType::Call, OptionType::Put] {
        assert_eq!(kind.sign() * kind.sign(), 1);
    }
}

#[test]
fn sign_is_the_same_on_every_call() {
    for kind in [OptionType::Call, OptionType::Put] {
        assert_eq!(kind.sign(), kind.sign());
    }
}

#[test]
fn kinds_compare_and_copy() {
    let kind = OptionType::Put;
    let copy = kind;
    assert_eq!(kind, copy);
    assert_ne!(OptionType::Call, OptionType::Put);
    assert_eq!(format!("{:?}", OptionType::Call), "Call");
}

fn std_normal_cdf(x: f64) -> f64 {
    0.5 * (1.0 + erf(x / 2.0f64.sqrt()))
}

struct Params {
    k: f64,
    s: f64,
    t: f64,
    r: f64,
    v: f64,
}

fn at_the_money() -> Params {
    Params { k: 100.0, s: 100.0, t: 1.0, r: 0.05, v: 0.2 }
}

fn d1(p: &Params) -> f64 {
    ((p.s / p.k).ln() + (p.r + 0.5 * p.v.powi(2)) * p.t) / (p.v * p.t.sqrt())
}

fn d2(p: &Params) -> f64 {
    ((p.s / p.k).ln() + (p.r - 0.5 * p.v.powi(2)) * p.t) / (p.v * p.t.sqrt())
}

fn delta(p: &Params, kind: OptionType) -> f64 {
    let e = f64::from(kind.sign());
    e * std_normal_cdf(e * d1(p))
}

fn rho(p: &Params, kind: OptionType) -> f64 {
    let e = f64::from(kind.sign());
    e * p.k * p.t * (-p.r * p.t).exp() * std_normal_cdf(e * d2(p))
}

fn std_normal_pdf(x: f64) -> f64 {
    (-x.powi(2) / 2.0).exp() / (2.0 * std::f64::consts::PI).sqrt()
}

fn vega(p: &Params) -> f64 {
    p.s * std_normal_pdf(d1(p)) * p.t.sqrt()
}

fn theta(p: &Params, kind: OptionType) -> f64 {
    -p.v * 0.5 * vega(p) / p.t - p.r * rho(p, kind) / p.t
}

fn price(p: &Params, kind: OptionType) -> f64 {
    p.s * delta(p, kind) - rho(p, kind) / p.t
}

#[test]
fn sign_gives_delta_of_both_kinds() {
    let p = at_the_money();
    assert_eq!(delta(&p, OptionType::Call), 0.6368306511756191);
    assert_eq!(delta(&p, OptionType::Put), -0.3631693488243809);
}

#[test]
fn sign_gives_rho_of_both_kinds() {
    let p = at_the_money();
    assert_eq!(rho(&p, OptionType::Call), 53.232481545376345);
    assert_eq!(rho(&p, OptionType::Put), -41.89046090469506);
}

#[test]
fn sign_gives_price_of_both_kinds() {
    let p = at_the_money();
    assert_eq!(price(&p, OptionType::Call), 10.450583572185565);
    assert_eq!(price(&p, OptionType::Put), 5.573526022256971);
}

#[test]
fn sign_gives_theta_of_both_kinds() {
    let p = at_the_money();
    assert_eq!(vega(&p), 37.52403469169379);
    assert_eq!(theta(&p, OptionType::Call), -6.414027546438197);
    assert_eq!(theta(&p, OptionType::Put), -1.6578804239346265);
}

#[test]
fn delta_has_the_sign_of_the_kind() {
    for s in [60.0f64, 90.0, 100.0, 110.0, 160.0] {
        let p = Params { s, ..at_the_money() };
        let call = delta(&p, OptionType::Call);
        let put = delta(&p, OptionType::Put);
        assert!(0.0 < call && call < 1.0);
        assert!(-1.0 < put && put < 0.0);
    }
}

#[test]
fn prices_of_the_two_kinds_obey_parity() {
    for (k, s, t, r, v) in [
        (100.0f64, 100.0f64, 1.0f64, 0.05f64, 0.2f64),
        (120.0, 95.0, 0.5, 0.01, 0.35),
        (80.0, 101.5, 2.0, 0.03, 0.15),
    ] {
        let p = Params { k, s, t, r, v };
        let gap = price(&p, OptionType::Call) - price(&p, OptionType::Put);
        let want = s - k * (-r * t).exp();
        assert!((gap - want).abs() <= 1e-9 * want.abs());
    }
}

#[test]
fn multiplying_by_the_sign_of_a_put_negates_exactly() {
    let e = f64::from(OptionType::Put.sign());
    for x in [0.35f64, -2.5, 1e300, 5e-324, f64::INFINITY] {
        assert_eq!((e * x).to_bits(), (-x).to_bits());
    }
    let e = f64::from(OptionType::Call.sign());
    for x in [0.35f64, -2.5, 1e300, 5e-324, f64::NEG_INFINITY] {
        assert_eq!((e * x).to_bits(), x.to_bits());
    }
}

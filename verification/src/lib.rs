//! The verified core of a Black-Scholes pricer for European options.
//!
//! The model's closed-form formulas differ between a call and a put by a
//! single sign. With `e` standing for `+1` on a call and `-1` on a put, and
//! `N` for the cumulative normal distribution,
//!
//! * delta is `e * N(e * d1)`,
//! * rho is `e * k * t * exp(-r * t) * N(e * d2)`,
//!
//! while gamma and vega do not depend on the kind at all, and price and theta
//! depend on it only through delta and rho.
//!
//! [`option_type`] holds the kind of an option and that sign. [`distribution`]
//! and [`formulas`] state the normal distribution and the pricing formulas
//! over the real numbers and prove what holds of them in exact arithmetic.
//! Evaluating them in floating point is left to the caller.
pub mod distribution;
pub mod formulas;
pub mod option_type;

pub use option_type::OptionType;

//! The kind of an option and the sign it puts on the formulas.
use vstd::prelude::*;

verus! {

/// The kind of a European option: the right to buy the underlying at the
/// strike (a call), or the right to sell it (a put).
#[derive(Copy, Clone, Debug, PartialEq, Eq, Structural)]
pub enum OptionType {
    Call,
    Put,
}

impl OptionType {
    /// The sign that the kind gives to delta and rho: `+1` for a call, `-1`
    /// for a put.
    pub open spec fn spec_sign(self) -> int {
        match self {
            OptionType::Call => 1,
            OptionType::Put => -1,
        }
    }

    /// Returns the sign of the kind: `1` for a call, `-1` for a put.
    ///
    /// Delta and rho of an option carry this sign, and the cumulative
    /// distribution in them is evaluated at the moneyness multiplied by it.
    pub fn sign(self) -> (r: i8)
        ensures
            r == self.spec_sign(),
    {
        match self {
            OptionType::Call => 1,
            OptionType::Put => -1,
        }
    }
}

} // verus!

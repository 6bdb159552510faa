//! Prediction resistance as a type-level switch.

use vstd::prelude::*;

verus! {

/// Marks a generator that reseeds from its entropy source before every
/// generate request.
pub struct Pr;

/// Marks a generator that reseeds only when its reseed counter has passed
/// the reseed interval.
pub struct NoPr;

/// Whether a generator has prediction resistance.
pub trait PredictionResistance {
    /// Whether every generate request is preceded by a reseed.
    spec fn spec_is_pr() -> bool;

    /// Whether every generate request is preceded by a reseed.
    fn is_pr() -> (pr: bool)
        ensures
            pr == Self::spec_is_pr(),
    ;
}

impl PredictionResistance for Pr {
    open spec fn spec_is_pr() -> bool {
        true
    }

    fn is_pr() -> (pr: bool) {
        true
    }
}

impl PredictionResistance for NoPr {
    open spec fn spec_is_pr() -> bool {
        false
    }

    fn is_pr() -> (pr: bool) {
        false
    }
}

} // verus!

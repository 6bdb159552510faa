//! Where seeds come from.

use rand_core::OsError;
use rand_core::OsRng;
use rand_core::TryRngCore;
use vstd::prelude::*;

verus! {

/// A source of entropy.
///
/// On success the whole of `bytes` has been filled.  Nothing is assumed of
/// what it was filled with, nor that two requests are answered alike: every
/// contract that rests on a source holds whatever the source hands out.
pub trait Entropy {
    /// Why the source could not deliver.
    type Error;

    /// Fills `bytes` with entropy.
    fn fill_bytes(&mut self, bytes: &mut [u8]) -> (r: Result<(), Self::Error>)
        ensures
            final(bytes)@.len() == old(bytes)@.len(),
    ;
}

/// Marks an entropy source as fit for cryptographic use.
pub trait CryptoEntropy: Entropy {

}

/// Trusted: `rand_core::OsRng`, taken as an opaque type.
#[verifier::external_type_specification]
#[verifier::external_body]
pub struct ExOsRng(OsRng);

/// Trusted: `rand_core::OsError`, the error of `OsRng`, taken as an opaque
/// type.
#[verifier::external_type_specification]
#[verifier::external_body]
pub struct ExOsError(OsError);

/// Trusted: `TryRngCore::try_fill_bytes` of `rand_core::OsRng`, which asks the
/// operating system for random bytes.  Nothing is claimed of the bytes; a
/// slice keeps its length.
#[verifier::external_body]
fn os_fill_bytes(bytes: &mut [u8]) -> (r: Result<(), OsError>)
    ensures
        final(bytes)@.len() == old(bytes)@.len(),
{
    OsRng.try_fill_bytes(bytes)
}

/// Trusted: the unit value `rand_core::OsRng`, the handle on the operating
/// system's generator.
#[verifier::external_body]
pub(crate) fn os_rng() -> (rng: OsRng) {
    OsRng
}

impl Entropy for OsRng {
    type Error = OsError;

    fn fill_bytes(&mut self, bytes: &mut [u8]) -> (r: Result<(), Self::Error>) {
        os_fill_bytes(bytes)
    }
}

impl CryptoEntropy for OsRng {

}

} // verus!

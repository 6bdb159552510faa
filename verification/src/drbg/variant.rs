//! What the three mechanisms have in common: instantiate, reseed, generate.

use vstd::prelude::*;

verus! {

/// The most bytes that a single generate request hands out.
pub const MAX_BYTES_PER_REQUEST: usize = 0x1_0000;

/// The most bytes of additional input that a request may bring.
pub const MAX_ADDITIONAL_INPUT_LENGTH: u64 = 0x8_0000_0000;

/// The most bytes that a personalization string may have.
pub const MAX_PERSONALIZATION_STRING_LENGTH: u64 = 0x8_0000_0000;

/// The most bytes that a nonce may have.
pub const MAX_NONCE_LENGTH: u64 = 0x1_0000_0000;

/// The largest reseed interval that any mechanism accepts.
pub const MAX_RESEED_INTERVAL: u64 = 0x1_0000_0000_0000;

/// Why a generate request was turned down.
#[derive(Debug)]
pub enum GenerateError {
    /// The reseed counter has passed the reseed interval: fresh entropy is
    /// due before any more output.
    ReseedRequired,
}

/// A DRBG mechanism: a working state with the three operations on it.
///
/// The view of a mechanism is its working state as mathematics, and the
/// `spec_` functions say what each operation makes of it.  The state is
/// secret: no executable function hands it out.
pub trait DrbgVariant: Sized + View {
    /// The most generate requests between two reseeds.
    const MAX_RESEED_INTERVAL: u64;

    /// Bytes of security strength; as many bytes of entropy go into every
    /// seed, and half as many into a nonce.
    const SECURITY_STRENGTH: usize;

    /// The buffers of the working state have the lengths they should.
    spec fn wf(&self) -> bool;

    /// The working state that instantiation derives from its inputs.
    spec fn spec_instantiate(
        entropy_input: Seq<u8>,
        nonce: Seq<u8>,
        personalization_string: Seq<u8>,
    ) -> Self::V;

    /// The working state after a reseed.
    spec fn spec_reseed(state: Self::V, entropy_input: Seq<u8>, additional_input: Seq<u8>) -> Self::V;

    /// The working state after a generate request for `n` bytes, and the
    /// bytes handed out.
    spec fn spec_generate(
        state: Self::V,
        n: nat,
        additional_input: Seq<u8>,
        reseed_counter: u64,
    ) -> (Self::V, Seq<u8>);

    /// The mechanism's limits are those of the standard.
    proof fn lemma_limits()
        ensures
            Self::MAX_RESEED_INTERVAL == MAX_RESEED_INTERVAL,
            1 <= Self::SECURITY_STRENGTH <= 32,
    ;

    /// A generate request hands out as many bytes as were asked for.
    proof fn lemma_generate_len(
        state: Self::V,
        n: nat,
        additional_input: Seq<u8>,
        reseed_counter: u64,
    )
        ensures
            Self::spec_generate(state, n, additional_input, reseed_counter).1.len() == n,
    ;

    /// Derives a working state from entropy, a nonce and a personalization
    /// string.
    fn instantiate(entropy_input: &[u8], nonce: &[u8], personalization_string: &[u8]) -> (variant:
        Self)
        ensures
            variant.wf(),
            variant@ == Self::spec_instantiate(entropy_input@, nonce@, personalization_string@),
    ;

    /// Mixes fresh entropy and additional input into the working state.
    fn reseed(&mut self, entropy_input: &[u8], additional_input: &[u8])
        requires
            old(self).wf(),
        ensures
            final(self).wf(),
            final(self)@ == Self::spec_reseed(old(self)@, entropy_input@, additional_input@),
    ;

    /// Fills `bytes` with output and moves the working state on.
    fn generate(&mut self, bytes: &mut [u8], additional_input: &[u8], reseed_counter: u64)
        requires
            old(self).wf(),
        ensures
            final(self).wf(),
            (final(self)@, final(bytes)@) == Self::spec_generate(
                old(self)@,
                old(bytes)@.len(),
                additional_input@,
                reseed_counter,
            ),
    ;
}

} // verus!

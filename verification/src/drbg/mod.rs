//! The generator as its users see it: the reseed policy around a mechanism,
//! and the instance that owns both the mechanism and its entropy source.

use crate::arith::{div_ceil, lemma_div_ceil_unique, repeat};
use crate::buf::filled;
use crate::drbg::variant::{
    DrbgVariant, GenerateError, MAX_ADDITIONAL_INPUT_LENGTH, MAX_BYTES_PER_REQUEST,
    MAX_NONCE_LENGTH, MAX_PERSONALIZATION_STRING_LENGTH, MAX_RESEED_INTERVAL,
};
use crate::entropy::Entropy;
use crate::pr::PredictionResistance;
use std::marker::PhantomData;
use vstd::prelude::*;

pub mod variant;

verus! {

/// Why a generator could not be made or could not deliver.
#[derive(Debug)]
pub enum DrbgError<E> {
    /// The reseed interval asked for is above the mechanism's maximum.
    ReseedIntervalTooLong,
    /// The reseed interval asked for is below one.
    ReseedIntervalTooShort,
    /// The personalization string is longer than the mechanism takes.
    PersonalizationStringTooLong,
    /// The additional input is longer than the mechanism takes.
    AdditionalInputTooLong,
    /// The nonce is shorter than half the security strength.
    NonceTooShort,
    /// The nonce is longer than the mechanism takes.
    NonceTooLong,
    /// The entropy source failed.
    EntropyError(E),
}

impl<E> DrbgError<E> {
    /// The text that goes with each kind of error.
    pub open spec fn spec_message(self) -> Seq<char> {
        match self {
            DrbgError::ReseedIntervalTooLong => "Reseed Interval too long."@,
            DrbgError::ReseedIntervalTooShort => "Reseed Interval too short."@,
            DrbgError::PersonalizationStringTooLong => "Personalization string too long."@,
            DrbgError::AdditionalInputTooLong => "Additional input too long."@,
            DrbgError::NonceTooShort => "Nonce too short."@,
            DrbgError::NonceTooLong => "Nonce too long."@,
            DrbgError::EntropyError(_) => "Drbg Entropy Error"@,
        }
    }

    /// A short description of the error.  What an entropy source has to say
    /// of its own failure is in the variant's field.
    pub fn message(&self) -> (text: &'static str)
        ensures
            text@ == self.spec_message(),
    {
        match self {
            DrbgError::ReseedIntervalTooLong => "Reseed Interval too long.",
            DrbgError::ReseedIntervalTooShort => "Reseed Interval too short.",
            DrbgError::PersonalizationStringTooLong => "Personalization string too long.",
            DrbgError::AdditionalInputTooLong => "Additional input too long.",
            DrbgError::NonceTooShort => "Nonce too short.",
            DrbgError::NonceTooLong => "Nonce too long.",
            DrbgError::EntropyError(_) => "Drbg Entropy Error",
        }
    }
}

/// A mechanism's working state together with the reseed policy's counters.
pub struct VariantState<S> {
    pub working: S,
    pub reseed_counter: u64,
    pub reseed_interval: u64,
}

/// A mechanism under the reseed policy: it counts generate requests and
/// refuses the next one once the count has passed the reseed interval.
pub struct Variant<P, M> {
    variant: M,
    reseed_counter: u64,
    reseed_interval: u64,
    _pr: PhantomData<P>,
}

/// A generator: a mechanism under the reseed policy, and the entropy source
/// that it seeds itself from.
pub struct Drbg<P, M, E> {
    variant: Variant<P, M>,
    entropy: E,
}

/// The counters are within their ranges.
pub open spec fn counters_ok<S>(state: VariantState<S>) -> bool {
    &&& 1 <= state.reseed_counter <= MAX_RESEED_INTERVAL + 1
    &&& 1 <= state.reseed_interval <= MAX_RESEED_INTERVAL
}

/// Instantiation: the mechanism's, with the counter at one and the longest
/// interval.
pub open spec fn variant_instantiate<M: DrbgVariant>(
    entropy_input: Seq<u8>,
    nonce: Seq<u8>,
    personalization_string: Seq<u8>,
) -> VariantState<M::V> {
    VariantState {
        working: M::spec_instantiate(entropy_input, nonce, personalization_string),
        reseed_counter: 1,
        reseed_interval: M::MAX_RESEED_INTERVAL,
    }
}

/// Reseeding: the mechanism's, with the counter back at one.
pub open spec fn variant_reseed<M: DrbgVariant>(
    state: VariantState<M::V>,
    entropy_input: Seq<u8>,
    additional_input: Seq<u8>,
) -> VariantState<M::V> {
    VariantState {
        working: M::spec_reseed(state.working, entropy_input, additional_input),
        reseed_counter: 1,
        reseed_interval: state.reseed_interval,
    }
}

/// Whether the counter has passed the interval, so that the next generate
/// request is refused.
pub open spec fn reseed_required<S>(state: VariantState<S>) -> bool {
    state.reseed_counter > state.reseed_interval
}

/// A generate request that is let through: the mechanism's, with the
/// counter one further.
pub open spec fn variant_generate<M: DrbgVariant>(
    state: VariantState<M::V>,
    n: nat,
    additional_input: Seq<u8>,
) -> (VariantState<M::V>, Seq<u8>) {
    let (working, out) = M::spec_generate(
        state.working,
        n,
        additional_input,
        state.reseed_counter,
    );
    (
        VariantState {
            working,
            reseed_counter: (state.reseed_counter + 1) as u64,
            reseed_interval: state.reseed_interval,
        },
        out,
    )
}

/// A reseed followed at once by a generate request.  The reseed takes the
/// additional input, so the request goes to the mechanism without any, and
/// past the counter check.
pub open spec fn variant_reseed_generate<M: DrbgVariant>(
    state: VariantState<M::V>,
    entropy_input: Seq<u8>,
    n: nat,
    additional_input: Seq<u8>,
) -> (VariantState<M::V>, Seq<u8>) {
    variant_generate::<M>(
        variant_reseed::<M>(state, entropy_input, additional_input),
        n,
        Seq::empty(),
    )
}

/// Whether a generate request in this state starts with a reseed: always
/// under prediction resistance, else when the counter has passed the interval.
pub open spec fn needs_reseed<S>(pr: bool, state: VariantState<S>) -> bool {
    pr || reseed_required(state)
}

/// One generate request as the generator serves it, with the entropy that
/// the source hands out if it is asked.
pub open spec fn chunk_step<M: DrbgVariant>(
    pr: bool,
    state: VariantState<M::V>,
    n: nat,
    additional_input: Seq<u8>,
    draw: Seq<u8>,
) -> (VariantState<M::V>, Seq<u8>) {
    if needs_reseed(pr, state) {
        variant_reseed_generate::<M>(state, draw, n, additional_input)
    } else {
        variant_generate::<M>(state, n, additional_input)
    }
}

/// The number of generate requests that a buffer of `n` bytes is served in.
pub open spec fn num_chunks(n: nat) -> nat {
    div_ceil(n, MAX_BYTES_PER_REQUEST as nat)
}

/// The length of the `k`-th of those requests: all are full but the last.
pub open spec fn chunk_len(n: nat, k: nat) -> nat {
    let left = n - k * MAX_BYTES_PER_REQUEST;
    if left >= MAX_BYTES_PER_REQUEST {
        MAX_BYTES_PER_REQUEST as nat
    } else if left > 0 {
        left as nat
    } else {
        0
    }
}

/// State and output after the first `k` requests of filling `n` bytes.
/// `draws[j]` is what the entropy source hands out during request `j`; it
/// is read only where that request reseeds.
pub open spec fn fill_after<M: DrbgVariant>(
    pr: bool,
    state: VariantState<M::V>,
    n: nat,
    additional_input: Seq<u8>,
    draws: Seq<Seq<u8>>,
    k: nat,
) -> (VariantState<M::V>, Seq<u8>)
    decreases k,
{
    if k == 0 {
        (state, Seq::empty())
    } else {
        let j = (k - 1) as nat;
        let (before, out) = fill_after::<M>(pr, state, n, additional_input, draws, j);
        let (after, more) = chunk_step::<M>(
            pr,
            before,
            chunk_len(n, j),
            additional_input,
            draws[j as int],
        );
        (after, out + more)
    }
}

/// State and output after filling a buffer of `n` bytes.
pub open spec fn fill_spec<M: DrbgVariant>(
    pr: bool,
    state: VariantState<M::V>,
    n: nat,
    additional_input: Seq<u8>,
    draws: Seq<Seq<u8>>,
) -> (VariantState<M::V>, Seq<u8>) {
    fill_after::<M>(pr, state, n, additional_input, draws, num_chunks(n))
}

/// The draws of the first `k` requests are what the source was asked for:
/// a seed's worth of entropy where the request reseeds, nothing elsewhere.
#[verifier::opaque]
pub open spec fn draws_fit<M: DrbgVariant>(
    pr: bool,
    state: VariantState<M::V>,
    n: nat,
    additional_input: Seq<u8>,
    draws: Seq<Seq<u8>>,
    k: nat,
) -> bool {
    &&& draws.len() == k
    &&& forall|j: nat|
        j < k ==> (#[trigger] draws[j as int]).len() == (if needs_reseed(
            pr,
            fill_after::<M>(pr, state, n, additional_input, draws, j).0,
        ) {
            M::SECURITY_STRENGTH as nat
        } else {
            0
        })
}

/// `k` requests during which the source was never asked.
pub open spec fn no_draws(k: nat) -> Seq<Seq<u8>> {
    Seq::new(k, |j: int| Seq::<u8>::empty())
}

/// Filling `n` bytes from this state will not touch the entropy source:
/// there is nothing to fill, or prediction resistance is off and the counter
/// stays within the interval throughout.
pub open spec fn no_reseed_due<S>(pr: bool, state: VariantState<S>, n: nat) -> bool {
    n == 0 || (!pr && state.reseed_counter + num_chunks(n) <= state.reseed_interval + 1)
}

/// A fill that ran to its end took `state` to `after` and left `out` in the
/// buffer, drawing `draws` on the way.
pub open spec fn fill_done<M: DrbgVariant>(
    pr: bool,
    state: VariantState<M::V>,
    n: nat,
    additional_input: Seq<u8>,
    draws: Seq<Seq<u8>>,
    after: VariantState<M::V>,
    out: Seq<u8>,
) -> bool {
    &&& draws_fit::<M>(pr, state, n, additional_input, draws, num_chunks(n))
    &&& fill_spec::<M>(pr, state, n, additional_input, draws) == (after, out)
}

/// A fill that the entropy source cut short: `k` requests were served, the
/// next one needed a reseed, and the buffer behind the served part is as it
/// was.
pub open spec fn fill_stopped<M: DrbgVariant>(
    pr: bool,
    state: VariantState<M::V>,
    additional_input: Seq<u8>,
    draws: Seq<Seq<u8>>,
    k: nat,
    after: VariantState<M::V>,
    buffer_before: Seq<u8>,
    buffer_after: Seq<u8>,
) -> bool {
    let n = buffer_before.len();
    let served = k * MAX_BYTES_PER_REQUEST;
    &&& k < num_chunks(n)
    &&& draws_fit::<M>(pr, state, n, additional_input, draws, k)
    &&& needs_reseed(pr, after)
    &&& fill_after::<M>(pr, state, n, additional_input, draws, k) == (
        after,
        buffer_after.take(served as int),
    )
    &&& buffer_after.skip(served as int) == buffer_before.skip(served as int)
}

/// Which length check an instantiation fails, if any: the personalization
/// string is checked first, then a nonce that the caller brought.
pub open spec fn length_error<E>(
    strength: nat,
    nonce: Option<&[u8]>,
    personalization_string: Seq<u8>,
) -> Option<DrbgError<E>> {
    if personalization_string.len() > MAX_PERSONALIZATION_STRING_LENGTH {
        Some(DrbgError::PersonalizationStringTooLong)
    } else {
        match nonce {
            Some(nonce) => {
                if nonce@.len() < strength / 2 {
                    Some(DrbgError::NonceTooShort)
                } else if nonce@.len() > MAX_NONCE_LENGTH {
                    Some(DrbgError::NonceTooLong)
                } else {
                    None
                }
            },
            None => None,
        }
    }
}

/// `state` is what instantiation makes of the entropy `entropy_input`, the
/// nonce `used` and the personalization string, where `used` is the
/// caller's nonce or, without one, half a seed's worth from the source.
pub open spec fn seeded<M: DrbgVariant>(
    state: VariantState<M::V>,
    entropy_input: Seq<u8>,
    used: Seq<u8>,
    nonce: Option<&[u8]>,
    personalization_string: Seq<u8>,
) -> bool {
    &&& entropy_input.len() == M::SECURITY_STRENGTH
    &&& match nonce {
        Some(nonce) => used == nonce@,
        None => used.len() == M::SECURITY_STRENGTH / 2,
    }
    &&& state == variant_instantiate::<M>(entropy_input, used, personalization_string)
}

/// What filling a buffer comes to.
///
/// Additional input that is too long is refused before anything is touched:
/// generator, entropy source and buffer stay as they were.  Otherwise the
/// fill either runs to its end, and state and buffer are what `fill_spec`
/// makes of some draws that fit, or the entropy source fails, and state and
/// buffer are what the requests served until then have made of them.  Where
/// no reseed is due the fill succeeds, leaves the entropy source alone, and
/// its result is that of `fill_spec` without any draws.
pub open spec fn fill_outcome<P: PredictionResistance, M: DrbgVariant, E: Entropy>(
    before: Drbg<P, M, E>,
    after: Drbg<P, M, E>,
    buffer_before: Seq<u8>,
    buffer_after: Seq<u8>,
    additional_input: Seq<u8>,
    r: Result<(), DrbgError<E::Error>>,
) -> bool {
    let pr = P::spec_is_pr();
    let n = buffer_before.len();
    &&& after.wf()
    &&& buffer_after.len() == n
    &&& additional_input.len() > MAX_ADDITIONAL_INPUT_LENGTH ==> {
        &&& r matches Err(DrbgError::AdditionalInputTooLong)
        &&& after == before
        &&& buffer_after == buffer_before
    }
    &&& additional_input.len() <= MAX_ADDITIONAL_INPUT_LENGTH ==> match r {
        Ok(()) => exists|draws: Seq<Seq<u8>>|
            #[trigger] fill_done::<M>(
                pr,
                before.state(),
                n,
                additional_input,
                draws,
                after.state(),
                buffer_after,
            ),
        Err(DrbgError::EntropyError(_)) => exists|draws: Seq<Seq<u8>>, k: nat|
            #[trigger] fill_stopped::<M>(
                pr,
                before.state(),
                additional_input,
                draws,
                k,
                after.state(),
                buffer_before,
                buffer_after,
            ),
        Err(_) => false,
    }
    &&& additional_input.len() <= MAX_ADDITIONAL_INPUT_LENGTH && no_reseed_due(
        pr,
        before.state(),
        n,
    ) ==> {
        &&& r is Ok
        &&& after.source() == before.source()
        &&& (after.state(), buffer_after) == fill_spec::<M>(
            pr,
            before.state(),
            n,
            additional_input,
            no_draws(num_chunks(n)),
        )
    }
}

/// What making a generator comes to.
///
/// A failed length check is reported before the entropy source is asked.
/// Otherwise the generator is what instantiation makes of some entropy of
/// the right length, or the entropy source has failed.
pub open spec fn new_outcome<P: PredictionResistance, M: DrbgVariant, E: Entropy>(
    nonce: Option<&[u8]>,
    personalization_string: Seq<u8>,
    r: Result<Drbg<P, M, E>, DrbgError<E::Error>>,
) -> bool {
    match length_error::<E::Error>(M::SECURITY_STRENGTH as nat, nonce, personalization_string) {
        Some(e) => r matches Err(got) && got == e,
        None => match r {
            Ok(drbg) => drbg.wf() && exists|entropy_input: Seq<u8>, used: Seq<u8>|
                #[trigger] seeded::<M>(
                    drbg.state(),
                    entropy_input,
                    used,
                    nonce,
                    personalization_string,
                ),
            Err(e) => e is EntropyError,
        },
    }
}

/// What the requests before `k` do does not depend on later draws.
pub proof fn lemma_fill_after_prefix<M: DrbgVariant>(
    pr: bool,
    state: VariantState<M::V>,
    n: nat,
    additional_input: Seq<u8>,
    d1: Seq<Seq<u8>>,
    d2: Seq<Seq<u8>>,
    k: nat,
)
    requires
        k <= d1.len(),
        k <= d2.len(),
        d1.take(k as int) == d2.take(k as int),
    ensures
        fill_after::<M>(pr, state, n, additional_input, d1, k) == fill_after::<M>(
            pr,
            state,
            n,
            additional_input,
            d2,
            k,
        ),
    decreases k,
{
    if k > 0 {
        let j = (k - 1) as nat;
        assert(d1.take(j as int) =~= d1.take(k as int).take(j as int));
        assert(d2.take(j as int) =~= d2.take(k as int).take(j as int));
        lemma_fill_after_prefix::<M>(pr, state, n, additional_input, d1, d2, j);
        assert(d1[j as int] == d1.take(k as int)[j as int]);
        assert(d2[j as int] == d2.take(k as int)[j as int]);
    }
}

/// Serving one more request extends the account of a fill by that
/// request's draw and output.
pub proof fn lemma_fill_step<M: DrbgVariant>(
    pr: bool,
    state: VariantState<M::V>,
    n: nat,
    additional_input: Seq<u8>,
    draws: Seq<Seq<u8>>,
    k: nat,
    before: VariantState<M::V>,
    done: Seq<u8>,
    drawn: Seq<u8>,
    after: VariantState<M::V>,
    out: Seq<u8>,
)
    requires
        draws_fit::<M>(pr, state, n, additional_input, draws, k),
        fill_after::<M>(pr, state, n, additional_input, draws, k) == (before, done),
        drawn.len() == (if needs_reseed(pr, before) {
            M::SECURITY_STRENGTH as nat
        } else {
            0
        }),
        chunk_step::<M>(pr, before, chunk_len(n, k), additional_input, drawn) == (after, out),
    ensures
        draws_fit::<M>(pr, state, n, additional_input, draws.push(drawn), k + 1),
        fill_after::<M>(pr, state, n, additional_input, draws.push(drawn), k + 1) == (
            after,
            done + out,
        ),
{
    reveal(draws_fit);
    let next = draws.push(drawn);
    assert(next.take(k as int) =~= draws.take(k as int));
    lemma_fill_after_prefix::<M>(pr, state, n, additional_input, next, draws, k);
    assert(next[k as int] == drawn);
    assert forall|j: nat| j < k + 1 implies (#[trigger] next[j as int]).len() == (if needs_reseed(
        pr,
        fill_after::<M>(pr, state, n, additional_input, next, j).0,
    ) {
        M::SECURITY_STRENGTH as nat
    } else {
        0
    }) by {
        assert(next.take(j as int) =~= draws.take(j as int));
        lemma_fill_after_prefix::<M>(pr, state, n, additional_input, next, draws, j);
        if j < k {
            assert(next[j as int] == draws[j as int]);
        }
    }
}

/// No draws at all fit a fill that has not begun.
pub proof fn lemma_fill_start<M: DrbgVariant>(
    pr: bool,
    state: VariantState<M::V>,
    n: nat,
    additional_input: Seq<u8>,
)
    ensures
        draws_fit::<M>(pr, state, n, additional_input, Seq::empty(), 0),
        Seq::<Seq<u8>>::empty() == no_draws(0),
{
    reveal(draws_fit);
    assert(Seq::<Seq<u8>>::empty() =~= no_draws(0));
}

/// With `k` full requests behind it and `left` bytes to go, a fill is at
/// request `k`, which takes what is left up to a full request's length.
pub proof fn lemma_chunk_arith(n: nat, k: nat, left: nat)
    requires
        left > 0,
        k * MAX_BYTES_PER_REQUEST + left == n,
    ensures
        k < num_chunks(n),
        chunk_len(n, k) == (if left < MAX_BYTES_PER_REQUEST {
            left
        } else {
            MAX_BYTES_PER_REQUEST as nat
        }),
{
}

/// Asks `entropy` for `n` bytes.
fn draw<E: Entropy>(entropy: &mut E, n: usize) -> (r: Result<Vec<u8>, E::Error>)
    ensures
        r matches Ok(bytes) ==> bytes@.len() == n,
{
    let mut bytes = filled(0, n);
    match entropy.fill_bytes(bytes.as_mut_slice()) {
        Ok(()) => Ok(bytes),
        Err(e) => Err(e),
    }
}

impl<P, M: DrbgVariant> View for Variant<P, M> {
    type V = VariantState<M::V>;

    closed spec fn view(&self) -> VariantState<M::V> {
        VariantState {
            working: self.variant@,
            reseed_counter: self.reseed_counter,
            reseed_interval: self.reseed_interval,
        }
    }
}

impl<P: PredictionResistance, M: DrbgVariant> Variant<P, M> {
    /// The mechanism's buffers have the lengths they should.
    pub closed spec fn mechanism_wf(&self) -> bool {
        self.variant.wf()
    }

    /// The mechanism is in order and the counters are within their ranges.
    pub open spec fn wf(&self) -> bool {
        &&& self.mechanism_wf()
        &&& counters_ok(self@)
    }

    /// Instantiates the mechanism; the reseed counter starts at one and the
    /// reseed interval at the mechanism's maximum.
    pub fn instantiate(entropy_input: &[u8], nonce: &[u8], personalization_string: &[u8]) -> (variant:
        Self)
        ensures
            variant.wf(),
            variant@ == variant_instantiate::<M>(
                entropy_input@,
                nonce@,
                personalization_string@,
            ),
    {
        proof {
            M::lemma_limits();
        }
        Variant {
            variant: M::instantiate(entropy_input, nonce, personalization_string),
            reseed_counter: 1,
            reseed_interval: M::MAX_RESEED_INTERVAL,
            _pr: PhantomData,
        }
    }

    /// Reseeds the mechanism and sets the reseed counter back to one.
    pub fn reseed(&mut self, entropy_input: &[u8], additional_input: &[u8])
        requires
            old(self).wf(),
        ensures
            final(self).wf(),
            final(self)@ == variant_reseed::<M>(old(self)@, entropy_input@, additional_input@),
    {
        self.variant.reseed(entropy_input, additional_input);
        self.reseed_counter = 1;
    }

    /// Serves a generate request, unless a reseed is due: then nothing
    /// changes and `ReseedRequired` comes back.
    pub fn generate(&mut self, bytes: &mut [u8], additional_input: &[u8]) -> (r: Result<
        (),
        GenerateError,
    >)
        requires
            old(self).wf(),
        ensures
            final(self).wf(),
            final(bytes)@.len() == old(bytes)@.len(),
            reseed_required(old(self)@) ==> {
                &&& r matches Err(GenerateError::ReseedRequired)
                &&& *final(self) == *old(self)
                &&& final(bytes)@ == old(bytes)@
            },
            !reseed_required(old(self)@) ==> {
                &&& r is Ok
                &&& (final(self)@, final(bytes)@) == variant_generate::<M>(
                    old(self)@,
                    old(bytes)@.len(),
                    additional_input@,
                )
            },
    {
        if self.reseed_counter > self.reseed_interval {
            return Err(GenerateError::ReseedRequired);
        }
        proof {
            M::lemma_generate_len(
                self.variant@,
                bytes@.len(),
                additional_input@,
                self.reseed_counter,
            );
        }
        self.variant.generate(bytes, additional_input, self.reseed_counter);
        self.reseed_counter += 1;
        Ok(())
    }

    /// Reseeds with `entropy_input` and the additional input, then serves a
    /// generate request without additional input, whatever the counter was.
    pub fn reseed_generate(
        &mut self,
        entropy_input: &[u8],
        bytes: &mut [u8],
        additional_input: &[u8],
    )
        requires
            old(self).wf(),
        ensures
            final(self).wf(),
            final(bytes)@.len() == old(bytes)@.len(),
            final(self)@.reseed_counter == 2,
            (final(self)@, final(bytes)@) == variant_reseed_generate::<M>(
                old(self)@,
                entropy_input@,
                old(bytes)@.len(),
                additional_input@,
            ),
    {
        self.reseed(entropy_input, additional_input);
        let empty: Vec<u8> = Vec::new();
        proof {
            M::lemma_generate_len(self.variant@, bytes@.len(), empty@, self.reseed_counter);
        }
        self.variant.generate(bytes, empty.as_slice(), self.reseed_counter);
        self.reseed_counter += 1;
    }

    /// Sets the reseed interval to `reseed_interval` if that is at least one
    /// and at most the mechanism's maximum; otherwise nothing changes.
    pub fn set_reseed_interval<E>(&mut self, reseed_interval: u64) -> (r: Result<(), DrbgError<E>>)
        requires
            old(self).wf(),
        ensures
            final(self).wf(),
            reseed_interval < 1 ==> r matches Err(DrbgError::ReseedIntervalTooShort),
            reseed_interval > MAX_RESEED_INTERVAL ==> r matches Err(
                DrbgError::ReseedIntervalTooLong,
            ),
            r is Err ==> *final(self) == *old(self),
            1 <= reseed_interval <= MAX_RESEED_INTERVAL ==> r is Ok && final(self)@ == (
                VariantState { reseed_interval, ..old(self)@ }),
    {
        if reseed_interval < 1 {
            return Err(DrbgError::ReseedIntervalTooShort);
        }
        if reseed_interval > MAX_RESEED_INTERVAL {
            return Err(DrbgError::ReseedIntervalTooLong);
        }
        self.reseed_interval = reseed_interval;
        Ok(())
    }

    /// Checks the lengths of nonce and personalization string, draws what
    /// instantiation needs from `entropy`, and instantiates.  Where a length
    /// check fails, `entropy` is not asked for anything.
    pub fn from_entropy<E: Entropy>(
        entropy: &mut E,
        nonce: Option<&[u8]>,
        personalization_string: &[u8],
    ) -> (r: Result<Self, DrbgError<E::Error>>)
        ensures
            match length_error::<E::Error>(
                M::SECURITY_STRENGTH as nat,
                nonce,
                personalization_string@,
            ) {
                Some(e) => r matches Err(got) && got == e && *final(entropy) == *old(entropy),
                None => match r {
                    Ok(variant) => variant.wf() && exists|entropy_input: Seq<u8>, used: Seq<u8>|
                        #[trigger] seeded::<M>(
                            variant@,
                            entropy_input,
                            used,
                            nonce,
                            personalization_string@,
                        ),
                    Err(e) => e is EntropyError,
                },
            },
    {
        proof {
            M::lemma_limits();
        }
        if personalization_string.len() as u64 > MAX_PERSONALIZATION_STRING_LENGTH {
            return Err(DrbgError::PersonalizationStringTooLong);
        }
        let drawn: Vec<u8>;
        let used: &[u8] = match nonce {
            Some(nonce) => {
                if nonce.len() < M::SECURITY_STRENGTH / 2 {
                    return Err(DrbgError::NonceTooShort);
                } else if nonce.len() as u64 > MAX_NONCE_LENGTH {
                    return Err(DrbgError::NonceTooLong);
                }
                nonce
            },
            None => {
                drawn = match draw(entropy, M::SECURITY_STRENGTH / 2) {
                    Ok(bytes) => bytes,
                    Err(e) => {
                        return Err(DrbgError::EntropyError(e));
                    },
                };
                drawn.as_slice()
            },
        };
        let entropy_input = match draw(entropy, M::SECURITY_STRENGTH) {
            Ok(bytes) => bytes,
            Err(e) => {
                return Err(DrbgError::EntropyError(e));
            },
        };
        let variant = Self::instantiate(entropy_input.as_slice(), used, personalization_string);
        assert(seeded::<M>(variant@, entropy_input@, used@, nonce, personalization_string@));
        Ok(variant)
    }
}

impl<P: PredictionResistance, M: DrbgVariant, E: Entropy> Drbg<P, M, E> {
    /// The mechanism's working state and the counters, as mathematics.
    pub closed spec fn state(&self) -> VariantState<M::V> {
        self.variant@
    }

    /// The entropy source.
    pub closed spec fn source(&self) -> E {
        self.entropy
    }

    /// The mechanism's buffers have the lengths they should.
    pub closed spec fn mechanism_wf(&self) -> bool {
        self.variant.mechanism_wf()
    }

    /// The mechanism is in order and the counters are within their ranges.
    pub open spec fn wf(&self) -> bool {
        &&& self.mechanism_wf()
        &&& counters_ok(self.state())
    }

    /// Makes a generator.  The lengths of nonce and personalization string
    /// are checked first; then a nonce, if the caller brought none, and the
    /// entropy input are drawn from `entropy`.
    pub fn new(entropy: E, nonce: Option<&[u8]>, personalization_string: &[u8]) -> (r: Result<
        Self,
        DrbgError<E::Error>,
    >)
        ensures
            new_outcome(nonce, personalization_string@, r),
    {
        let mut entropy = entropy;
        match Variant::from_entropy(&mut entropy, nonce, personalization_string) {
            Ok(variant) => {
                let drbg = Drbg { variant, entropy };
                proof {
                    let (entropy_input, used) = choose|entropy_input: Seq<u8>, used: Seq<u8>|
                        #[trigger] seeded::<M>(
                            variant@,
                            entropy_input,
                            used,
                            nonce,
                            personalization_string@,
                        );
                    assert(seeded::<M>(
                        drbg.state(),
                        entropy_input,
                        used,
                        nonce,
                        personalization_string@,
                    ));
                }
                Ok(drbg)
            },
            Err(e) => Err(e),
        }
    }

    /// Sets the reseed interval to `reseed_interval` if that is at least one
    /// and at most the mechanism's maximum.
    pub fn set_reseed_interval(&mut self, reseed_interval: u64) -> (r: Result<
        (),
        DrbgError<E::Error>,
    >)
        requires
            old(self).wf(),
        ensures
            final(self).wf(),
            final(self).source() == old(self).source(),
            reseed_interval < 1 ==> r matches Err(DrbgError::ReseedIntervalTooShort),
            reseed_interval > MAX_RESEED_INTERVAL ==> r matches Err(
                DrbgError::ReseedIntervalTooLong,
            ),
            r is Err ==> final(self).state() == old(self).state(),
            1 <= reseed_interval <= MAX_RESEED_INTERVAL ==> r is Ok && final(self).state() == (
                VariantState { reseed_interval, ..old(self).state() }),
    {
        self.variant.set_reseed_interval(reseed_interval)
    }

    /// Reseeds from the entropy source, mixing in `additional_input`.
    pub fn reseed(&mut self, additional_input: &[u8]) -> (r: Result<(), DrbgError<E::Error>>)
        requires
            old(self).wf(),
        ensures
            final(self).wf(),
            additional_input@.len() > MAX_ADDITIONAL_INPUT_LENGTH ==> {
                &&& r matches Err(DrbgError::AdditionalInputTooLong)
                &&& *final(self) == *old(self)
            },
            additional_input@.len() <= MAX_ADDITIONAL_INPUT_LENGTH ==> match r {
                Ok(()) => exists|entropy_input: Seq<u8>|
                    entropy_input.len() == M::SECURITY_STRENGTH && final(self).state()
                        == #[trigger] variant_reseed::<M>(
                        old(self).state(),
                        entropy_input,
                        additional_input@,
                    ),
                Err(e) => e is EntropyError && final(self).state() == old(self).state(),
            },
    {
        if additional_input.len() as u64 > MAX_ADDITIONAL_INPUT_LENGTH {
            return Err(DrbgError::AdditionalInputTooLong);
        }
        let entropy_input = match draw(&mut self.entropy, M::SECURITY_STRENGTH) {
            Ok(bytes) => bytes,
            Err(e) => {
                return Err(DrbgError::EntropyError(e));
            },
        };
        self.variant.reseed(entropy_input.as_slice(), additional_input);
        assert(entropy_input@.len() == M::SECURITY_STRENGTH && self.state() == variant_reseed::<M>(
            old(self).state(),
            entropy_input@,
            additional_input@,
        ));
        Ok(())
    }

    /// Fills `bytes` with output, in requests of at most
    /// `MAX_BYTES_PER_REQUEST` bytes.  Each request reseeds from the entropy
    /// source first if the generator has prediction resistance or the reseed
    /// counter has passed the reseed interval; the reseed then takes the
    /// additional input in the request's place.
    ///
    /// When the entropy source fails, the requests served so far stand: the
    /// state has moved through them and their output is at the front of
    /// `bytes`.
    pub fn fill_bytes(&mut self, bytes: &mut [u8], additional_input: &[u8]) -> (r: Result<
        (),
        DrbgError<E::Error>,
    >)
        requires
            old(self).wf(),
        ensures
            fill_outcome(
                *old(self),
                *final(self),
                old(bytes)@,
                final(bytes)@,
                additional_input@,
                r,
            ),
    {
        if additional_input.len() as u64 > MAX_ADDITIONAL_INPUT_LENGTH {
            return Err(DrbgError::AdditionalInputTooLong);
        }
        proof {
            M::lemma_limits();
        }
        let pr: bool = P::is_pr();
        let ghost orig = bytes@;
        let ghost total = bytes@.len();
        let ghost st0 = self.variant@;
        let ghost source0 = self.entropy;
        let ghost calm = no_reseed_due(pr, st0, total);
        let ghost mut draws: Seq<Seq<u8>> = Seq::empty();
        let ghost mut done: Seq<u8> = Seq::empty();
        let ghost mut k: nat = 0;
        let mut rest = bytes;
        proof {
            assert(orig.skip(0) =~= orig);
            lemma_fill_start::<M>(pr, st0, total, additional_input@);
        }
        while rest.len() > 0
            invariant
                self.variant.wf(),
                pr == P::spec_is_pr(),
                calm == no_reseed_due(pr, st0, total),
                additional_input@.len() <= MAX_ADDITIONAL_INPUT_LENGTH,
                orig == old(bytes)@,
                st0 == old(self).variant@,
                source0 == old(self).entropy,
                total == orig.len(),
                done.len() + rest@.len() == total,
                done.len() == k * MAX_BYTES_PER_REQUEST || rest@.len() == 0,
                done.len() <= k * MAX_BYTES_PER_REQUEST,
                k == 0 || (k - 1) * MAX_BYTES_PER_REQUEST < total,
                rest@ == orig.skip(done.len() as int),
                final(bytes)@ == done + final(rest)@,
                draws_fit::<M>(pr, st0, total, additional_input@, draws, k),
                fill_after::<M>(pr, st0, total, additional_input@, draws, k) == (
                    self.variant@,
                    done,
                ),
                self.variant@.reseed_interval == st0.reseed_interval,
                calm ==> draws == no_draws(k) && self.variant@.reseed_counter
                    == st0.reseed_counter + k && self.entropy == source0,
            decreases rest@.len(),
        {
            let n: usize = if rest.len() < MAX_BYTES_PER_REQUEST {
                rest.len()
            } else {
                MAX_BYTES_PER_REQUEST
            };
            let ghost before = self.variant@;
            let ghost rest_before = rest@;
            proof {
                lemma_chunk_arith(total, k, rest_before.len());
            }
            let (chunk, tail) = rest.split_at_mut(n);
            let mut must_reseed: bool = pr;
            if !must_reseed {
                match self.variant.generate(chunk, additional_input) {
                    Ok(()) => {},
                    Err(_) => {
                        must_reseed = true;
                    },
                }
            }
            let ghost mut drawn: Seq<u8> = Seq::empty();
            if must_reseed {
                let entropy_input = match draw(&mut self.entropy, M::SECURITY_STRENGTH) {
                    Ok(bytes) => bytes,
                    Err(e) => {
                        proof {
                            let left = done + (chunk@ + tail@);
                            assert(chunk@ + tail@ =~= rest_before);
                            assert(left.take(done.len() as int) =~= done);
                            assert(left.skip(done.len() as int) =~= orig.skip(done.len() as int));
                            assert(final(bytes)@ == left);
                            assert(fill_stopped::<M>(
                                P::spec_is_pr(),
                                old(self).state(),
                                additional_input@,
                                draws,
                                k,
                                self.state(),
                                old(bytes)@,
                                final(bytes)@,
                            ));
                        }
                        return Err(DrbgError::EntropyError(e));
                    },
                };
                proof {
                    drawn = entropy_input@;
                }
                self.variant.reseed_generate(entropy_input.as_slice(), chunk, additional_input);
            }
            proof {
                lemma_fill_step::<M>(
                    pr,
                    st0,
                    total,
                    additional_input@,
                    draws,
                    k,
                    before,
                    done,
                    drawn,
                    self.variant@,
                    chunk@,
                );
                if calm {
                    assert(draws.push(drawn) =~= no_draws(k + 1));
                }
                assert(tail@ =~= orig.skip(done.len() + n));
                assert(done + (chunk@ + final(tail)@) =~= (done + chunk@) + final(tail)@);
                draws = draws.push(drawn);
                done = done + chunk@;
                k = k + 1;
            }
            rest = tail;
        }
        proof {
            assert(done + rest@ =~= done);
            lemma_div_ceil_unique(total, MAX_BYTES_PER_REQUEST as nat, k);
            assert(final(bytes)@ == done);
            assert(fill_done::<M>(
                P::spec_is_pr(),
                old(self).state(),
                old(bytes)@.len(),
                additional_input@,
                draws,
                self.state(),
                final(bytes)@,
            ));
        }
        Ok(())
    }

    /// Hands out `requested_number_of_bytes` bytes of output in a buffer of
    /// its own: a fill of a fresh buffer of that length.
    pub fn get_random_bytes(&mut self, requested_number_of_bytes: u32, additional_input: Vec<u8>) -> (r:
        Result<Vec<u8>, DrbgError<E::Error>>)
        requires
            old(self).wf(),
        ensures
            match r {
                Ok(bytes) => fill_outcome(
                    *old(self),
                    *final(self),
                    repeat(0, requested_number_of_bytes as nat),
                    bytes@,
                    additional_input@,
                    Ok(()),
                ),
                Err(e) => exists|left: Seq<u8>|
                    #[trigger] fill_outcome(
                        *old(self),
                        *final(self),
                        repeat(0, requested_number_of_bytes as nat),
                        left,
                        additional_input@,
                        Err(e),
                    ),
            },
    {
        let mut bytes = filled(0, requested_number_of_bytes as usize);
        match self.fill_bytes(bytes.as_mut_slice(), additional_input.as_slice()) {
            Ok(()) => Ok(bytes),
            Err(e) => {
                assert(fill_outcome(
                    *old(self),
                    *self,
                    repeat(0, requested_number_of_bytes as nat),
                    bytes@,
                    additional_input@,
                    Err(e),
                ));
                Err(e)
            },
        }
    }

    /// Output from a generator that is made for this one request: it is
    /// instantiated from `entropy` with a nonce drawn from it, fills one
    /// buffer, and is dropped.
    pub fn random_bytes(
        entropy: E,
        requested_number_of_bytes: u32,
        personalization_string: Vec<u8>,
        additional_input: Vec<u8>,
    ) -> (r: Result<Vec<u8>, DrbgError<E::Error>>)
        ensures
            match r {
                Ok(bytes) => exists|fresh: Self, spent: Self|
                    #![trigger fill_outcome(
                        fresh,
                        spent,
                        repeat(0, requested_number_of_bytes as nat),
                        bytes@,
                        additional_input@,
                        Ok(()),
                    )]
                    {
                        &&& new_outcome(None, personalization_string@, Ok(fresh))
                        &&& fill_outcome(
                            fresh,
                            spent,
                            repeat(0, requested_number_of_bytes as nat),
                            bytes@,
                            additional_input@,
                            Ok(()),
                        )
                    },
                Err(e) => {
                    ||| new_outcome::<P, M, E>(None, personalization_string@, Err(e))
                    ||| exists|fresh: Self, spent: Self, left: Seq<u8>|
                        #![trigger fill_outcome(
                            fresh,
                            spent,
                            repeat(0, requested_number_of_bytes as nat),
                            left,
                            additional_input@,
                            Err(e),
                        )]
                        {
                            &&& new_outcome(None, personalization_string@, Ok(fresh))
                            &&& fill_outcome(
                                fresh,
                                spent,
                                repeat(0, requested_number_of_bytes as nat),
                                left,
                                additional_input@,
                                Err(e),
                            )
                        }
                },
            },
    {
        let mut drbg = match Self::new(entropy, None, personalization_string.as_slice()) {
            Ok(drbg) => drbg,
            Err(e) => {
                return Err(e);
            },
        };
        let ghost fresh = drbg;
        match drbg.get_random_bytes(requested_number_of_bytes, additional_input) {
            Ok(bytes) => {
                assert(fill_outcome(
                    fresh,
                    drbg,
                    repeat(0, requested_number_of_bytes as nat),
                    bytes@,
                    additional_input@,
                    Ok(()),
                ));
                Ok(bytes)
            },
            Err(e) => {
                proof {
                    let left = choose|left: Seq<u8>|
                        #[trigger] fill_outcome(
                            fresh,
                            drbg,
                            repeat(0, requested_number_of_bytes as nat),
                            left,
                            additional_input@,
                            Err(e),
                        );
                    assert(fill_outcome(
                        fresh,
                        drbg,
                        repeat(0, requested_number_of_bytes as nat),
                        left,
                        additional_input@,
                        Err(e),
                    ));
                }
                Err(e)
            },
        }
    }
}

} // verus!

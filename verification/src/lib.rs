//! Deterministic random bit generators after NIST SP 800-90A: CTR_DRBG over
//! AES, Hash_DRBG and HMAC_DRBG over SHA-2, each with or without prediction
//! resistance.
//!
//! A generator is made by a builder and fills buffers with pseudorandom
//! bytes.  It seeds itself from an entropy source, by default the operating
//! system's, and reseeds from it when its reseed policy says so.

use crate::ctr::cipher::{Aes128, Aes192, Aes256};
use crate::ctr::Ctr;
use crate::drbg::variant::{DrbgVariant, MAX_RESEED_INTERVAL};
use crate::drbg::{fill_outcome, length_error, seeded, Drbg, VariantState};
use crate::entropy::os_rng;
use crate::hash_based::hashfn::{Sha224, Sha256, Sha384, Sha512, Sha512_224, Sha512_256};
use crate::hash_based::hmac::Hmac;
use crate::pr::{NoPr, Pr, PredictionResistance};
use rand_core::OsError;
use rand_core::OsRng;
use std::marker::PhantomData;
use vstd::prelude::*;

pub mod arith;
pub mod buf;
pub mod ctr;
pub mod drbg;
pub mod entropy;
pub mod hash_based;
pub mod laws;
pub mod pr;

pub use crate::drbg::DrbgError;
pub use crate::entropy::{CryptoEntropy, Entropy};

verus! {

/// A generator of one mechanism, with or without prediction resistance,
/// seeded from the entropy source `E`.
pub struct Handle<P, M, E = OsRng>(Drbg<P, M, E>);

/// The settings that a generator is made from.
pub struct Builder<'a, P, M, E> {
    personalization_string: Option<&'a [u8]>,
    reseed_interval: Option<u64>,
    nonce: Option<&'a [u8]>,
    entropy: E,
    _kind: PhantomData<(P, M)>,
}

/// Which check a reseed interval fails, if any.
pub open spec fn interval_error<E>(reseed_interval: Option<u64>) -> Option<DrbgError<E>> {
    match reseed_interval {
        Some(interval) => {
            if interval < 1 {
                Some(DrbgError::ReseedIntervalTooShort)
            } else if interval > MAX_RESEED_INTERVAL {
                Some(DrbgError::ReseedIntervalTooLong)
            } else {
                None
            }
        },
        None => None,
    }
}

/// `state` is what instantiation makes of its inputs, but for the reseed
/// interval.
pub open spec fn seeded_but_interval<M: DrbgVariant>(
    state: VariantState<M::V>,
    entropy_input: Seq<u8>,
    used: Seq<u8>,
    nonce: Option<&[u8]>,
    personalization_string: Seq<u8>,
) -> bool {
    seeded::<M>(
        VariantState {
            working: state.working,
            reseed_counter: state.reseed_counter,
            reseed_interval: M::MAX_RESEED_INTERVAL,
        },
        entropy_input,
        used,
        nonce,
        personalization_string,
    )
}

/// What building a generator comes to.
///
/// The lengths of nonce and personalization string are checked first; a
/// failure there is reported before the entropy source is asked.  Then the
/// generator is instantiated from the entropy source, which may fail.  Last
/// the reseed interval, if one was set, is checked and put in place.
pub open spec fn build_outcome<P: PredictionResistance, M: DrbgVariant, E: Entropy>(
    nonce: Option<&[u8]>,
    personalization_string: Seq<u8>,
    reseed_interval: Option<u64>,
    r: Result<Handle<P, M, E>, DrbgError<E::Error>>,
) -> bool {
    match length_error::<E::Error>(M::SECURITY_STRENGTH as nat, nonce, personalization_string) {
        Some(e) => r matches Err(got) && got == e,
        None => match r {
            Ok(handle) => {
                &&& handle.wf()
                &&& interval_error::<E::Error>(reseed_interval) is None
                &&& handle.drbg().state().reseed_interval == (match reseed_interval {
                    Some(interval) => interval,
                    None => MAX_RESEED_INTERVAL,
                })
                &&& exists|entropy_input: Seq<u8>, used: Seq<u8>|
                    #[trigger] seeded_but_interval::<M>(
                        handle.drbg().state(),
                        entropy_input,
                        used,
                        nonce,
                        personalization_string,
                    )
            },
            Err(e) => e is EntropyError || Some(e) == interval_error::<E::Error>(reseed_interval),
        },
    }
}

impl<'a, P, M, E> Builder<'a, P, M, E> {
    /// The personalization string that was set; empty if none was.
    pub closed spec fn spec_personalization_string(&self) -> Seq<u8> {
        match self.personalization_string {
            Some(personalization_string) => personalization_string@,
            None => Seq::empty(),
        }
    }

    /// The nonce that was set, if any.
    pub closed spec fn spec_nonce(&self) -> Option<&'a [u8]> {
        self.nonce
    }

    /// The reseed interval that was set, if any.
    pub closed spec fn spec_reseed_interval(&self) -> Option<u64> {
        self.reseed_interval
    }

    /// The entropy source.
    pub closed spec fn spec_entropy(&self) -> E {
        self.entropy
    }

    /// Sets the personalization string, which tells this instance from others.
    pub fn personalization_string(self, personalization_string: &'a [u8]) -> (builder: Self)
        ensures
            builder.spec_personalization_string() == personalization_string@,
            builder.spec_nonce() == self.spec_nonce(),
            builder.spec_reseed_interval() == self.spec_reseed_interval(),
            builder.spec_entropy() == self.spec_entropy(),
    {
        Builder {
            personalization_string: Some(personalization_string),
            reseed_interval: self.reseed_interval,
            nonce: self.nonce,
            entropy: self.entropy,
            _kind: PhantomData,
        }
    }

    /// Sets the nonce, in place of one drawn from the entropy source.
    pub fn nonce(self, nonce: &'a [u8]) -> (builder: Self)
        ensures
            builder.spec_personalization_string() == self.spec_personalization_string(),
            builder.spec_nonce() == Some(nonce),
            builder.spec_reseed_interval() == self.spec_reseed_interval(),
            builder.spec_entropy() == self.spec_entropy(),
    {
        Builder {
            personalization_string: self.personalization_string,
            reseed_interval: self.reseed_interval,
            nonce: Some(nonce),
            entropy: self.entropy,
            _kind: PhantomData,
        }
    }

    /// Puts another entropy source in place.
    pub fn entropy<E2: Entropy>(self, entropy: E2) -> (builder: Builder<'a, P, M, E2>)
        ensures
            builder.spec_personalization_string() == self.spec_personalization_string(),
            builder.spec_nonce() == self.spec_nonce(),
            builder.spec_reseed_interval() == self.spec_reseed_interval(),
            builder.spec_entropy() == entropy,
    {
        Builder {
            personalization_string: self.personalization_string,
            reseed_interval: self.reseed_interval,
            nonce: self.nonce,
            entropy,
            _kind: PhantomData,
        }
    }
}

impl<'a, M, E> Builder<'a, NoPr, M, E> {
    /// Sets the reseed interval: the number of generate requests after which
    /// the generator reseeds.  Only a generator without prediction
    /// resistance has one to set.
    pub fn reseed_interval(self, reseed_interval: u64) -> (builder: Self)
        ensures
            builder.spec_personalization_string() == self.spec_personalization_string(),
            builder.spec_nonce() == self.spec_nonce(),
            builder.spec_reseed_interval() == Some(reseed_interval),
            builder.spec_entropy() == self.spec_entropy(),
    {
        Builder {
            personalization_string: self.personalization_string,
            reseed_interval: Some(reseed_interval),
            nonce: self.nonce,
            entropy: self.entropy,
            _kind: PhantomData,
        }
    }
}

impl<'a, P: PredictionResistance, M: DrbgVariant, E: Entropy> Builder<'a, P, M, E> {
    /// Makes the generator.
    pub fn build(self) -> (r: Result<Handle<P, M, E>, DrbgError<E::Error>>)
        ensures
            build_outcome(
                self.spec_nonce(),
                self.spec_personalization_string(),
                self.spec_reseed_interval(),
                r,
            ),
    {
        proof {
            M::lemma_limits();
        }
        let empty: Vec<u8> = Vec::new();
        let personalization_string: &[u8] = match self.personalization_string {
            Some(personalization_string) => personalization_string,
            None => empty.as_slice(),
        };
        let mut drbg = match Drbg::<P, M, E>::new(self.entropy, self.nonce, personalization_string) {
            Ok(drbg) => drbg,
            Err(e) => {
                return Err(e);
            },
        };
        let ghost fresh = drbg.state();
        if let Some(reseed_interval) = self.reseed_interval {
            match drbg.set_reseed_interval(reseed_interval) {
                Ok(()) => {},
                Err(e) => {
                    return Err(e);
                },
            }
        }
        let handle = Handle(drbg);
        proof {
            let (entropy_input, used) = choose|entropy_input: Seq<u8>, used: Seq<u8>|
                #[trigger] seeded::<M>(
                    fresh,
                    entropy_input,
                    used,
                    self.spec_nonce(),
                    self.spec_personalization_string(),
                );
            let state = handle.drbg().state();
            assert(fresh == VariantState {
                working: state.working,
                reseed_counter: state.reseed_counter,
                reseed_interval: M::MAX_RESEED_INTERVAL,
            });
            assert(seeded_but_interval::<M>(
                state,
                entropy_input,
                used,
                self.spec_nonce(),
                self.spec_personalization_string(),
            ));
        }
        Ok(handle)
    }
}

impl<P: PredictionResistance, M: DrbgVariant> Handle<P, M, OsRng> {
    /// A generator with the default settings, seeded by the operating system.
    pub fn new() -> (r: Result<Self, DrbgError<OsError>>)
        ensures
            build_outcome(None, Seq::empty(), None, r),
    {
        Self::builder().build()
    }

    /// The default settings: no personalization string, a nonce from the
    /// entropy source, the longest reseed interval, and the operating system
    /// as the entropy source.
    pub fn builder<'a>() -> (builder: Builder<'a, P, M, OsRng>)
        ensures
            builder.spec_personalization_string() == Seq::<u8>::empty(),
            builder.spec_nonce() is None,
            builder.spec_reseed_interval() is None,
    {
        Builder {
            personalization_string: None,
            reseed_interval: None,
            nonce: None,
            entropy: os_rng(),
            _kind: PhantomData,
        }
    }
}

impl<P: PredictionResistance, M: DrbgVariant, E: Entropy> Handle<P, M, E> {
    /// The generator behind the handle.
    pub closed spec fn drbg(&self) -> Drbg<P, M, E> {
        self.0
    }

    /// The generator is in order.
    pub open spec fn wf(&self) -> bool {
        self.drbg().wf()
    }

    /// Fills `bytes` with output.
    pub fn fill_bytes(&mut self, bytes: &mut [u8]) -> (r: Result<(), DrbgError<E::Error>>)
        requires
            old(self).wf(),
        ensures
            fill_outcome(
                old(self).drbg(),
                final(self).drbg(),
                old(bytes)@,
                final(bytes)@,
                Seq::empty(),
                r,
            ),
    {
        let empty: Vec<u8> = Vec::new();
        self.0.fill_bytes(bytes, empty.as_slice())
    }

    /// Fills `bytes` with output, mixing `additional_input` into the state.
    pub fn fill_bytes_with_ai(&mut self, bytes: &mut [u8], additional_input: &[u8]) -> (r: Result<
        (),
        DrbgError<E::Error>,
    >)
        requires
            old(self).wf(),
        ensures
            fill_outcome(
                old(self).drbg(),
                final(self).drbg(),
                old(bytes)@,
                final(bytes)@,
                additional_input@,
                r,
            ),
    {
        self.0.fill_bytes(bytes, additional_input)
    }
}

/// CTR_DRBG over AES-128.
pub type DrbgCtrAes128<E = OsRng> = Handle<NoPr, Ctr<Aes128>, E>;

/// The builder of [`DrbgCtrAes128`].
pub type DrbgCtrAes128Builder<'a, E> = Builder<'a, NoPr, Ctr<Aes128>, E>;

/// CTR_DRBG over AES-128, with prediction resistance.
pub type DrbgPrCtrAes128<E = OsRng> = Handle<Pr, Ctr<Aes128>, E>;

/// The builder of [`DrbgPrCtrAes128`].
pub type DrbgPrCtrAes128Builder<'a, E> = Builder<'a, Pr, Ctr<Aes128>, E>;

/// CTR_DRBG over AES-192.
pub type DrbgCtrAes192<E = OsRng> = Handle<NoPr, Ctr<Aes192>, E>;

/// The builder of [`DrbgCtrAes192`].
pub type DrbgCtrAes192Builder<'a, E> = Builder<'a, NoPr, Ctr<Aes192>, E>;

/// CTR_DRBG over AES-192, with prediction resistance.
pub type DrbgPrCtrAes192<E = OsRng> = Handle<Pr, Ctr<Aes192>, E>;

/// The builder of [`DrbgPrCtrAes192`].
pub type DrbgPrCtrAes192Builder<'a, E> = Builder<'a, Pr, Ctr<Aes192>, E>;

/// CTR_DRBG over AES-256.
pub type DrbgCtrAes256<E = OsRng> = Handle<NoPr, Ctr<Aes256>, E>;

/// The builder of [`DrbgCtrAes256`].
pub type DrbgCtrAes256Builder<'a, E> = Builder<'a, NoPr, Ctr<Aes256>, E>;

/// CTR_DRBG over AES-256, with prediction resistance.
pub type DrbgPrCtrAes256<E = OsRng> = Handle<Pr, Ctr<Aes256>, E>;

/// The builder of [`DrbgPrCtrAes256`].
pub type DrbgPrCtrAes256Builder<'a, E> = Builder<'a, Pr, Ctr<Aes256>, E>;

/// Hash_DRBG over SHA-224.
pub type DrbgHashSha224<E = OsRng> = Handle<NoPr, crate::hash_based::hash::Hash<Sha224>, E>;

/// The builder of [`DrbgHashSha224`].
pub type DrbgHashSha224Builder<'a, E> = Builder<'a, NoPr, crate::hash_based::hash::Hash<Sha224>, E>;

/// Hash_DRBG over SHA-224, with prediction resistance.
pub type DrbgPrHashSha224<E = OsRng> = Handle<Pr, crate::hash_based::hash::Hash<Sha224>, E>;

/// The builder of [`DrbgPrHashSha224`].
pub type DrbgPrHashSha224Builder<'a, E> = Builder<'a, Pr, crate::hash_based::hash::Hash<Sha224>, E>;

/// Hash_DRBG over SHA-512/224.
#[allow(non_camel_case_types)]
pub type DrbgHashSha512_224<E = OsRng> = Handle<NoPr, crate::hash_based::hash::Hash<Sha512_224>, E>;

/// The builder of [`DrbgHashSha512_224`].
#[allow(non_camel_case_types)]
pub type DrbgHashSha512_224Builder<'a, E> = Builder<'a, NoPr, crate::hash_based::hash::Hash<Sha512_224>, E>;

/// Hash_DRBG over SHA-512/224, with prediction resistance.
#[allow(non_camel_case_types)]
pub type DrbgPrHashSha512_224<E = OsRng> = Handle<Pr, crate::hash_based::hash::Hash<Sha512_224>, E>;

/// The builder of [`DrbgPrHashSha512_224`].
#[allow(non_camel_case_types)]
pub type DrbgPrHashSha512_224Builder<'a, E> = Builder<'a, Pr, crate::hash_based::hash::Hash<Sha512_224>, E>;

/// Hash_DRBG over SHA-256.
pub type DrbgHashSha256<E = OsRng> = Handle<NoPr, crate::hash_based::hash::Hash<Sha256>, E>;

/// The builder of [`DrbgHashSha256`].
pub type DrbgHashSha256Builder<'a, E> = Builder<'a, NoPr, crate::hash_based::hash::Hash<Sha256>, E>;

/// Hash_DRBG over SHA-256, with prediction resistance.
pub type DrbgPrHashSha256<E = OsRng> = Handle<Pr, crate::hash_based::hash::Hash<Sha256>, E>;

/// The builder of [`DrbgPrHashSha256`].
pub type DrbgPrHashSha256Builder<'a, E> = Builder<'a, Pr, crate::hash_based::hash::Hash<Sha256>, E>;

/// Hash_DRBG over SHA-512/256.
#[allow(non_camel_case_types)]
pub type DrbgHashSha512_256<E = OsRng> = Handle<NoPr, crate::hash_based::hash::Hash<Sha512_256>, E>;

/// The builder of [`DrbgHashSha512_256`].
#[allow(non_camel_case_types)]
pub type DrbgHashSha512_256Builder<'a, E> = Builder<'a, NoPr, crate::hash_based::hash::Hash<Sha512_256>, E>;

/// Hash_DRBG over SHA-512/256, with prediction resistance.
#[allow(non_camel_case_types)]
pub type DrbgPrHashSha512_256<E = OsRng> = Handle<Pr, crate::hash_based::hash::Hash<Sha512_256>, E>;

/// The builder of [`DrbgPrHashSha512_256`].
#[allow(non_camel_case_types)]
pub type DrbgPrHashSha512_256Builder<'a, E> = Builder<'a, Pr, crate::hash_based::hash::Hash<Sha512_256>, E>;

/// Hash_DRBG over SHA-384.
pub type DrbgHashSha384<E = OsRng> = Handle<NoPr, crate::hash_based::hash::Hash<Sha384>, E>;

/// The builder of [`DrbgHashSha384`].
pub type DrbgHashSha384Builder<'a, E> = Builder<'a, NoPr, crate::hash_based::hash::Hash<Sha384>, E>;

/// Hash_DRBG over SHA-384, with prediction resistance.
pub type DrbgPrHashSha384<E = OsRng> = Handle<Pr, crate::hash_based::hash::Hash<Sha384>, E>;

/// The builder of [`DrbgPrHashSha384`].
pub type DrbgPrHashSha384Builder<'a, E> = Builder<'a, Pr, crate::hash_based::hash::Hash<Sha384>, E>;

/// Hash_DRBG over SHA-512.
pub type DrbgHashSha512<E = OsRng> = Handle<NoPr, crate::hash_based::hash::Hash<Sha512>, E>;

/// The builder of [`DrbgHashSha512`].
pub type DrbgHashSha512Builder<'a, E> = Builder<'a, NoPr, crate::hash_based::hash::Hash<Sha512>, E>;

/// Hash_DRBG over SHA-512, with prediction resistance.
pub type DrbgPrHashSha512<E = OsRng> = Handle<Pr, crate::hash_based::hash::Hash<Sha512>, E>;

/// The builder of [`DrbgPrHashSha512`].
pub type DrbgPrHashSha512Builder<'a, E> = Builder<'a, Pr, crate::hash_based::hash::Hash<Sha512>, E>;

/// HMAC_DRBG over SHA-224.
pub type DrbgHmacSha224<E = OsRng> = Handle<NoPr, Hmac<Sha224>, E>;

/// The builder of [`DrbgHmacSha224`].
pub type DrbgHmacSha224Builder<'a, E> = Builder<'a, NoPr, Hmac<Sha224>, E>;

/// HMAC_DRBG over SHA-224, with prediction resistance.
pub type DrbgPrHmacSha224<E = OsRng> = Handle<Pr, Hmac<Sha224>, E>;

/// The builder of [`DrbgPrHmacSha224`].
pub type DrbgPrHmacSha224Builder<'a, E> = Builder<'a, Pr, Hmac<Sha224>, E>;

/// HMAC_DRBG over SHA-512/224.
#[allow(non_camel_case_types)]
pub type DrbgHmacSha512_224<E = OsRng> = Handle<NoPr, Hmac<Sha512_224>, E>;

/// The builder of [`DrbgHmacSha512_224`].
#[allow(non_camel_case_types)]
pub type DrbgHmacSha512_224Builder<'a, E> = Builder<'a, NoPr, Hmac<Sha512_224>, E>;

/// HMAC_DRBG over SHA-512/224, with prediction resistance.
#[allow(non_camel_case_types)]
pub type DrbgPrHmacSha512_224<E = OsRng> = Handle<Pr, Hmac<Sha512_224>, E>;

/// The builder of [`DrbgPrHmacSha512_224`].
#[allow(non_camel_case_types)]
pub type DrbgPrHmacSha512_224Builder<'a, E> = Builder<'a, Pr, Hmac<Sha512_224>, E>;

/// HMAC_DRBG over SHA-256.
pub type DrbgHmacSha256<E = OsRng> = Handle<NoPr, Hmac<Sha256>, E>;

/// The builder of [`DrbgHmacSha256`].
pub type DrbgHmacSha256Builder<'a, E> = Builder<'a, NoPr, Hmac<Sha256>, E>;

/// HMAC_DRBG over SHA-256, with prediction resistance.
pub type DrbgPrHmacSha256<E = OsRng> = Handle<Pr, Hmac<Sha256>, E>;

/// The builder of [`DrbgPrHmacSha256`].
pub type DrbgPrHmacSha256Builder<'a, E> = Builder<'a, Pr, Hmac<Sha256>, E>;

/// HMAC_DRBG over SHA-512/256.
#[allow(non_camel_case_types)]
pub type DrbgHmacSha512_256<E = OsRng> = Handle<NoPr, Hmac<Sha512_256>, E>;

/// The builder of [`DrbgHmacSha512_256`].
#[allow(non_camel_case_types)]
pub type DrbgHmacSha512_256Builder<'a, E> = Builder<'a, NoPr, Hmac<Sha512_256>, E>;

/// HMAC_DRBG over SHA-512/256, with prediction resistance.
#[allow(non_camel_case_types)]
pub type DrbgPrHmacSha512_256<E = OsRng> = Handle<Pr, Hmac<Sha512_256>, E>;

/// The builder of [`DrbgPrHmacSha512_256`].
#[allow(non_camel_case_types)]
pub type DrbgPrHmacSha512_256Builder<'a, E> = Builder<'a, Pr, Hmac<Sha512_256>, E>;

/// HMAC_DRBG over SHA-384.
pub type DrbgHmacSha384<E = OsRng> = Handle<NoPr, Hmac<Sha384>, E>;

/// The builder of [`DrbgHmacSha384`].
pub type DrbgHmacSha384Builder<'a, E> = Builder<'a, NoPr, Hmac<Sha384>, E>;

/// HMAC_DRBG over SHA-384, with prediction resistance.
pub type DrbgPrHmacSha384<E = OsRng> = Handle<Pr, Hmac<Sha384>, E>;

/// The builder of [`DrbgPrHmacSha384`].
pub type DrbgPrHmacSha384Builder<'a, E> = Builder<'a, Pr, Hmac<Sha384>, E>;

/// HMAC_DRBG over SHA-512.
pub type DrbgHmacSha512<E = OsRng> = Handle<NoPr, Hmac<Sha512>, E>;

/// The builder of [`DrbgHmacSha512`].
pub type DrbgHmacSha512Builder<'a, E> = Builder<'a, NoPr, Hmac<Sha512>, E>;

/// HMAC_DRBG over SHA-512, with prediction resistance.
pub type DrbgPrHmacSha512<E = OsRng> = Handle<Pr, Hmac<Sha512>, E>;

/// The builder of [`DrbgPrHmacSha512`].
pub type DrbgPrHmacSha512Builder<'a, E> = Builder<'a, Pr, Hmac<Sha512>, E>;

} // verus!

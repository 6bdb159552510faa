//! HMAC_DRBG.

use crate::arith::{div_ceil, lemma_div_ceil_unique, lemma_put_block, repeat, stream};
use crate::buf::{append, copy_at, filled};
use crate::drbg::variant::DrbgVariant;
use crate::hash_based::hashfn::HashFn;
use std::marker::PhantomData;
use vstd::prelude::*;

verus! {

/// The working state of HMAC_DRBG as mathematics: a key and a value, each
/// as long as a digest.
pub struct HmacState {
    pub key: Seq<u8>,
    pub v: Seq<u8>,
}

/// HMAC_DRBG over the hash function `F`.
pub struct Hmac<F: HashFn> {
    v: Vec<u8>,
    key: Vec<u8>,
    _hash: PhantomData<F>,
}

/// The update routine: key and value are rekeyed over the provided data
/// once, behind a zero byte, and, if there is any data, once more behind a
/// one byte.
pub open spec fn hmac_update<F: HashFn>(state: HmacState, provided_data: Seq<u8>) -> HmacState {
    let k1 = F::spec_hmac(state.key, state.v + seq![0x00u8] + provided_data);
    let v1 = F::spec_hmac(k1, state.v);
    if provided_data.len() == 0 {
        HmacState { key: k1, v: v1 }
    } else {
        let k2 = F::spec_hmac(k1, v1 + seq![0x01u8] + provided_data);
        HmacState { key: k2, v: F::spec_hmac(k2, v1) }
    }
}

/// Instantiation: the key of zero bytes and the value of one bytes, updated
/// with entropy, nonce and personalization string.
pub open spec fn hmac_instantiate<F: HashFn>(
    entropy_input: Seq<u8>,
    nonce: Seq<u8>,
    personalization_string: Seq<u8>,
) -> HmacState {
    hmac_update::<F>(
        HmacState { key: repeat(0x00, F::BLOCK_LEN as nat), v: repeat(0x01, F::BLOCK_LEN as nat) },
        entropy_input + nonce + personalization_string,
    )
}

/// Reseeding: an update with entropy and additional input.
pub open spec fn hmac_reseed<F: HashFn>(
    state: HmacState,
    entropy_input: Seq<u8>,
    additional_input: Seq<u8>,
) -> HmacState {
    hmac_update::<F>(state, entropy_input + additional_input)
}

/// `v` sent through HMAC under `key` `i` times over.
pub open spec fn hmac_chain<F: HashFn>(key: Seq<u8>, v: Seq<u8>, i: nat) -> Seq<u8>
    decreases i,
{
    if i == 0 {
        v
    } else {
        F::spec_hmac(key, hmac_chain::<F>(key, v, (i - 1) as nat))
    }
}

/// The output blocks of HMAC_DRBG: `v` sent through HMAC once, twice, ...
pub open spec fn hmac_block<F: HashFn>(key: Seq<u8>, v: Seq<u8>) -> spec_fn(nat) -> Seq<u8> {
    |i: nat| hmac_chain::<F>(key, v, i + 1)
}

/// A generate request.  Additional input, if there is any, updates the
/// state first; the output is the chain of values, the last of which stays
/// as the value; a last update with the additional input moves the state on.
pub open spec fn hmac_generate<F: HashFn>(state: HmacState, n: nat, additional_input: Seq<u8>) -> (
    HmacState,
    Seq<u8>,
) {
    let keyed = if additional_input.len() == 0 {
        state
    } else {
        hmac_update::<F>(state, additional_input)
    };
    let out = stream(hmac_block::<F>(keyed.key, keyed.v), F::BLOCK_LEN as nat, n);
    let run = HmacState {
        key: keyed.key,
        v: hmac_chain::<F>(keyed.key, keyed.v, div_ceil(n, F::BLOCK_LEN as nat)),
    };
    (hmac_update::<F>(run, additional_input), out)
}

impl<F: HashFn> View for Hmac<F> {
    type V = HmacState;

    closed spec fn view(&self) -> HmacState {
        HmacState { key: self.key@, v: self.v@ }
    }
}

impl<F: HashFn> Hmac<F> {
    /// The update routine of HMAC_DRBG.
    pub fn update(&mut self, provided_data: &[u8])
        requires
            old(self).wf(),
        ensures
            final(self).wf(),
            final(self)@ == hmac_update::<F>(old(self)@, provided_data@),
    {
        let mut input: Vec<u8> = Vec::new();
        append(&mut input, self.v.as_slice());
        input.push(0x00);
        append(&mut input, provided_data);
        assert(input@ =~= self.v@ + seq![0x00u8] + provided_data@);
        self.key = F::hmac(self.key.as_slice(), input.as_slice());
        self.v = F::hmac(self.key.as_slice(), self.v.as_slice());

        if provided_data.len() != 0 {
            let mut input: Vec<u8> = Vec::new();
            append(&mut input, self.v.as_slice());
            input.push(0x01);
            append(&mut input, provided_data);
            assert(input@ =~= self.v@ + seq![0x01u8] + provided_data@);
            self.key = F::hmac(self.key.as_slice(), input.as_slice());
            self.v = F::hmac(self.key.as_slice(), self.v.as_slice());
        }
    }
}

impl<F: HashFn> DrbgVariant for Hmac<F> {
    const MAX_RESEED_INTERVAL: u64 = F::MAX_RESEED_INTERVAL;

    const SECURITY_STRENGTH: usize = F::SECURITY_STRENGTH;

    open spec fn wf(&self) -> bool {
        &&& self@.key.len() == F::BLOCK_LEN
        &&& self@.v.len() == F::BLOCK_LEN
    }

    open spec fn spec_instantiate(
        entropy_input: Seq<u8>,
        nonce: Seq<u8>,
        personalization_string: Seq<u8>,
    ) -> HmacState {
        hmac_instantiate::<F>(entropy_input, nonce, personalization_string)
    }

    open spec fn spec_reseed(
        state: HmacState,
        entropy_input: Seq<u8>,
        additional_input: Seq<u8>,
    ) -> HmacState {
        hmac_reseed::<F>(state, entropy_input, additional_input)
    }

    open spec fn spec_generate(
        state: HmacState,
        n: nat,
        additional_input: Seq<u8>,
        reseed_counter: u64,
    ) -> (HmacState, Seq<u8>) {
        hmac_generate::<F>(state, n, additional_input)
    }

    proof fn lemma_limits()
        ensures
            Self::SECURITY_STRENGTH == F::SECURITY_STRENGTH,
    {
        F::lemma_dimensions();
        assert(Self::MAX_RESEED_INTERVAL == F::MAX_RESEED_INTERVAL);
        assert(Self::SECURITY_STRENGTH == F::SECURITY_STRENGTH);
    }

    proof fn lemma_generate_len(
        state: HmacState,
        n: nat,
        additional_input: Seq<u8>,
        reseed_counter: u64,
    ) {
    }

    fn instantiate(entropy_input: &[u8], nonce: &[u8], personalization_string: &[u8]) -> (variant:
        Self) {
        let mut seed_material: Vec<u8> = Vec::new();
        append(&mut seed_material, entropy_input);
        append(&mut seed_material, nonce);
        append(&mut seed_material, personalization_string);
        let mut variant = Hmac {
            v: filled(0x01, F::BLOCK_LEN),
            key: filled(0x00, F::BLOCK_LEN),
            _hash: PhantomData,
        };
        variant.update(seed_material.as_slice());
        variant
    }

    fn reseed(&mut self, entropy_input: &[u8], additional_input: &[u8]) {
        let mut seed_material: Vec<u8> = Vec::new();
        append(&mut seed_material, entropy_input);
        append(&mut seed_material, additional_input);
        self.update(seed_material.as_slice());
    }

    fn generate(&mut self, bytes: &mut [u8], additional_input: &[u8], reseed_counter: u64) {
        proof {
            F::lemma_dimensions();
        }
        if additional_input.len() != 0 {
            self.update(additional_input);
        }
        let ghost v0 = self.v@;
        let ghost k0 = self.key@;
        let ghost blocks = hmac_block::<F>(k0, v0);
        let bl: usize = F::BLOCK_LEN;
        let n: usize = bytes.len();
        let mut pos: usize = 0;
        let ghost mut m: nat = 0;
        assert(bytes@.take(0) =~= stream(blocks, bl as nat, 0));
        while pos < n
            invariant
                bl == F::BLOCK_LEN,
                1 <= bl,
                pos <= n,
                n == bytes@.len(),
                pos == m * bl || pos == n,
                m == 0 || (m - 1) * bl < n,
                pos <= m * bl,
                self.wf(),
                self.key@ == k0,
                blocks == hmac_block::<F>(k0, v0),
                self.v@ == hmac_chain::<F>(k0, v0, m),
                bytes@.take(pos as int) == stream(blocks, bl as nat, pos as nat),
            decreases n - pos,
        {
            self.v = F::hmac(self.key.as_slice(), self.v.as_slice());
            let l: usize = if n - pos < bl {
                n - pos
            } else {
                bl
            };
            let ghost before = bytes@;
            copy_at(bytes, pos, self.v.as_slice(), l);
            proof {
                lemma_put_block(blocks, bl as nat, m, l as nat, before, bytes@);
                m = m + 1;
            }
            pos += l;
        }
        proof {
            assert(bytes@.take(n as int) =~= bytes@);
            lemma_div_ceil_unique(n as nat, bl as nat, m);
            assert(self@ == HmacState { key: k0, v: hmac_chain::<F>(k0, v0, m) });
        }
        self.update(additional_input);
    }
}

} // verus!

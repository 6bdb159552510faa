//! CTR_DRBG: the generator built on a block cipher in counter mode.

use crate::arith::{
    counter_add, div_ceil, lemma_counter_add_add, lemma_counter_add_zero, lemma_div_ceil_unique,
    lemma_put_block, repeat, stream, xor,
};
use crate::buf::{append, copy_at, filled, xor_in_place};
use crate::ctr::cipher::Cipher;
use crate::ctr::util::{block_cipher_df, inc, spec_block_cipher_df};
use crate::drbg::variant::DrbgVariant;
use std::marker::PhantomData;
use vstd::prelude::*;

pub mod cipher;
pub mod util;

verus! {

/// The working state of CTR_DRBG as mathematics: a key and a counter block.
pub struct CtrState {
    pub key: Seq<u8>,
    pub v: Seq<u8>,
}

/// CTR_DRBG over the block cipher `C`.
pub struct Ctr<C: Cipher> {
    v: Vec<u8>,
    key: Vec<u8>,
    _cipher: PhantomData<C>,
}

/// The keystream blocks behind the counter `v`: block `i` is the
/// encryption of `v + i + 1`.
pub open spec fn ctr_block<C: Cipher>(key: Seq<u8>, v: Seq<u8>) -> spec_fn(nat) -> Seq<u8> {
    |i: nat| C::spec_encrypt(key, counter_add(v, i + 1))
}

/// The update routine: a seed's length of keystream, folded with the provided
/// data, becomes the new key (its front) and the new counter (the rest).
pub open spec fn spec_update<C: Cipher>(state: CtrState, provided_data: Seq<u8>) -> CtrState {
    let temp = xor(
        stream(ctr_block::<C>(state.key, state.v), C::BLOCK_LEN as nat, C::SEED_LEN as nat),
        provided_data,
    );
    CtrState { key: temp.take(C::KEY_LEN as int), v: temp.skip(C::KEY_LEN as int) }
}

/// Instantiation: the all-zero state, updated with the seed derived from
/// entropy, nonce and personalization string.
pub open spec fn ctr_instantiate<C: Cipher>(
    entropy_input: Seq<u8>,
    nonce: Seq<u8>,
    personalization_string: Seq<u8>,
) -> CtrState {
    spec_update::<C>(
        CtrState { key: repeat(0, C::KEY_LEN as nat), v: repeat(0, C::BLOCK_LEN as nat) },
        spec_block_cipher_df::<C>(entropy_input + nonce + personalization_string),
    )
}

/// Reseeding: an update with the seed derived from entropy and additional
/// input.
pub open spec fn ctr_reseed<C: Cipher>(
    state: CtrState,
    entropy_input: Seq<u8>,
    additional_input: Seq<u8>,
) -> CtrState {
    spec_update::<C>(state, spec_block_cipher_df::<C>(entropy_input + additional_input))
}

/// A generate request.  Additional input, if there is any, is derived into a
/// seed and updates the state first; the output is keystream; a last update,
/// with that same seed or with zeros, moves the state on.
pub open spec fn ctr_generate<C: Cipher>(state: CtrState, n: nat, additional_input: Seq<u8>) -> (
    CtrState,
    Seq<u8>,
) {
    let a = if additional_input.len() == 0 {
        repeat(0, C::SEED_LEN as nat)
    } else {
        spec_block_cipher_df::<C>(additional_input)
    };
    let keyed = if additional_input.len() == 0 {
        state
    } else {
        spec_update::<C>(state, a)
    };
    let out = stream(ctr_block::<C>(keyed.key, keyed.v), C::BLOCK_LEN as nat, n);
    let run = CtrState {
        key: keyed.key,
        v: counter_add(keyed.v, div_ceil(n, C::BLOCK_LEN as nat)),
    };
    (spec_update::<C>(run, a), out)
}

/// Fills `bytes` with keystream under `cipher`'s key, counting `v` up by one
/// for every block.
fn keystream<C: Cipher>(cipher: &C, v: &mut Vec<u8>, bytes: &mut [u8])
    requires
        cipher.key().len() == C::KEY_LEN,
        old(v)@.len() == C::BLOCK_LEN,
    ensures
        final(bytes)@ == stream(
            ctr_block::<C>(cipher.key(), old(v)@),
            C::BLOCK_LEN as nat,
            old(bytes)@.len(),
        ),
        final(v)@ == counter_add(old(v)@, div_ceil(old(bytes)@.len(), C::BLOCK_LEN as nat)),
        final(v)@.len() == C::BLOCK_LEN,
{
    proof {
        C::lemma_dimensions();
        lemma_counter_add_zero(v@);
    }
    let ghost v0 = v@;
    let ghost blocks = ctr_block::<C>(cipher.key(), v0);
    let bl: usize = C::BLOCK_LEN;
    let n: usize = bytes.len();
    let mut pos: usize = 0;
    let ghost mut m: nat = 0;
    assert(bytes@.take(0) =~= stream(blocks, bl as nat, 0));
    while pos < n
        invariant
            bl == C::BLOCK_LEN,
            4 <= bl,
            pos <= n,
            n == bytes@.len(),
            pos == m * bl || pos == n,
            m == 0 || (m - 1) * bl < n,
            pos <= m * bl,
            cipher.key().len() == C::KEY_LEN,
            blocks == ctr_block::<C>(cipher.key(), v0),
            v@.len() == bl,
            v@ == counter_add(v0, m),
            bytes@.take(pos as int) == stream(blocks, bl as nat, pos as nat),
        decreases n - pos,
    {
        inc(v.as_mut_slice());
        proof {
            lemma_counter_add_add(v0, m, 1);
        }
        let block = cipher.block_encrypt_b2b(v.as_slice());
        let l: usize = if n - pos < bl {
            n - pos
        } else {
            bl
        };
        let ghost before = bytes@;
        copy_at(bytes, pos, block.as_slice(), l);
        proof {
            lemma_put_block(blocks, bl as nat, m, l as nat, before, bytes@);
            m = m + 1;
        }
        pos += l;
    }
    proof {
        assert(bytes@.take(n as int) =~= bytes@);
        lemma_div_ceil_unique(n as nat, bl as nat, m);
    }
}

impl<C: Cipher> View for Ctr<C> {
    type V = CtrState;

    closed spec fn view(&self) -> CtrState {
        CtrState { key: self.key@, v: self.v@ }
    }
}

impl<C: Cipher> Ctr<C> {
    /// The update routine of CTR_DRBG.
    pub fn update(&mut self, provided_data: &[u8])
        requires
            old(self).wf(),
        ensures
            final(self).wf(),
            final(self)@ == spec_update::<C>(old(self)@, provided_data@),
    {
        proof {
            C::lemma_dimensions();
        }
        let cipher = C::new(self.key.as_slice());
        let mut temp = filled(0, C::SEED_LEN);
        keystream(&cipher, &mut self.v, temp.as_mut_slice());
        xor_in_place(temp.as_mut_slice(), provided_data);
        let (key, v) = C::seed_to_key_block(temp.as_slice());
        self.key = key;
        self.v = v;
    }
}

impl<C: Cipher> DrbgVariant for Ctr<C> {
    const MAX_RESEED_INTERVAL: u64 = 0x1_0000_0000_0000;

    const SECURITY_STRENGTH: usize = C::SECURITY_STRENGTH;

    open spec fn wf(&self) -> bool {
        &&& self@.key.len() == C::KEY_LEN
        &&& self@.v.len() == C::BLOCK_LEN
    }

    open spec fn spec_instantiate(
        entropy_input: Seq<u8>,
        nonce: Seq<u8>,
        personalization_string: Seq<u8>,
    ) -> CtrState {
        ctr_instantiate::<C>(entropy_input, nonce, personalization_string)
    }

    open spec fn spec_reseed(
        state: CtrState,
        entropy_input: Seq<u8>,
        additional_input: Seq<u8>,
    ) -> CtrState {
        ctr_reseed::<C>(state, entropy_input, additional_input)
    }

    open spec fn spec_generate(
        state: CtrState,
        n: nat,
        additional_input: Seq<u8>,
        reseed_counter: u64,
    ) -> (CtrState, Seq<u8>) {
        ctr_generate::<C>(state, n, additional_input)
    }

    proof fn lemma_limits()
        ensures
            Self::SECURITY_STRENGTH == C::SECURITY_STRENGTH,
    {
        C::lemma_dimensions();
        assert(Self::MAX_RESEED_INTERVAL == 0x1_0000_0000_0000);
        assert(Self::SECURITY_STRENGTH == C::SECURITY_STRENGTH);
    }

    proof fn lemma_generate_len(
        state: CtrState,
        n: nat,
        additional_input: Seq<u8>,
        reseed_counter: u64,
    ) {
    }

    fn instantiate(entropy_input: &[u8], nonce: &[u8], personalization_string: &[u8]) -> (variant:
        Self) {
        let mut seed_material: Vec<u8> = Vec::new();
        append(&mut seed_material, entropy_input);
        append(&mut seed_material, nonce);
        append(&mut seed_material, personalization_string);
        let seed = block_cipher_df::<C>(seed_material.as_slice());
        let mut variant = Ctr {
            v: filled(0, C::BLOCK_LEN),
            key: filled(0, C::KEY_LEN),
            _cipher: PhantomData,
        };
        variant.update(seed.as_slice());
        variant
    }

    fn reseed(&mut self, entropy_input: &[u8], additional_input: &[u8]) {
        let mut seed_material: Vec<u8> = Vec::new();
        append(&mut seed_material, entropy_input);
        append(&mut seed_material, additional_input);
        let seed = block_cipher_df::<C>(seed_material.as_slice());
        self.update(seed.as_slice());
    }

    fn generate(&mut self, bytes: &mut [u8], additional_input: &[u8], reseed_counter: u64) {
        proof {
            C::lemma_dimensions();
        }
        let a = if additional_input.len() == 0 {
            filled(0, C::SEED_LEN)
        } else {
            let a = block_cipher_df::<C>(additional_input);
            self.update(a.as_slice());
            a
        };
        let cipher = C::new(self.key.as_slice());
        keystream(&cipher, &mut self.v, bytes);
        self.update(a.as_slice());
    }
}

} // verus!

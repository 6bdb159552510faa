//! Hash_DRBG.

use crate::arith::{
    be_value, counter_add, lemma_be_bytes_value, lemma_counter_add_add, lemma_counter_add_zero,
    lemma_put_block, pow256, stream,
};
use crate::buf::{append, copy_at, slice_copy, to_be};
use crate::drbg::variant::DrbgVariant;
use crate::hash_based::hash::util::{hash_df, spec_hash_df};
use crate::hash_based::hashfn::HashFn;
use std::marker::PhantomData;
use vstd::prelude::*;

pub mod util;

verus! {

/// The working state of Hash_DRBG as mathematics: the value `v` and the
/// constant `c`, both read as big-endian numbers of a seed's length.
pub struct HashState {
    pub v: Seq<u8>,
    pub c: Seq<u8>,
}

/// Hash_DRBG over the hash function `F`.
pub struct Hash<F: HashFn> {
    v: Vec<u8>,
    c: Vec<u8>,
    _hash: PhantomData<F>,
}

/// Instantiation: `v` is derived from entropy, nonce and personalization
/// string, and `c` from a zero byte and `v`.
pub open spec fn hash_instantiate<F: HashFn>(
    entropy_input: Seq<u8>,
    nonce: Seq<u8>,
    personalization_string: Seq<u8>,
) -> HashState {
    let v = spec_hash_df::<F>(entropy_input + nonce + personalization_string);
    HashState { v, c: spec_hash_df::<F>(seq![0x00u8] + v) }
}

/// Reseeding: `v` is derived from a one byte, the old `v`, entropy and
/// additional input, and `c` from a zero byte and the new `v`.
pub open spec fn hash_reseed<F: HashFn>(
    state: HashState,
    entropy_input: Seq<u8>,
    additional_input: Seq<u8>,
) -> HashState {
    let v = spec_hash_df::<F>(seq![0x01u8] + state.v + entropy_input + additional_input);
    HashState { v, c: spec_hash_df::<F>(seq![0x00u8] + v) }
}

/// The output blocks of Hash_DRBG: block `i` is the digest of `v + i`.
pub open spec fn hashgen_block<F: HashFn>(v: Seq<u8>) -> spec_fn(nat) -> Seq<u8> {
    |i: nat| F::spec_hash(counter_add(v, i))
}

/// A generate request.  Additional input, if there is any, is hashed with
/// `v` and added to it; the output is the digests of `v`, `v + 1`, ...; at
/// last a digest of `v`, the constant and the reseed counter are added to `v`.
pub open spec fn hash_generate<F: HashFn>(
    state: HashState,
    n: nat,
    additional_input: Seq<u8>,
    reseed_counter: u64,
) -> (HashState, Seq<u8>) {
    let v = if additional_input.len() == 0 {
        state.v
    } else {
        counter_add(state.v, be_value(F::spec_hash(seq![0x02u8] + state.v + additional_input)))
    };
    let out = stream(hashgen_block::<F>(v), F::BLOCK_LEN as nat, n);
    let h = F::spec_hash(seq![0x03u8] + v);
    let next = counter_add(v, be_value(h) + be_value(state.c) + reseed_counter as nat);
    (HashState { v: next, c: state.c }, out)
}

impl<F: HashFn> View for Hash<F> {
    type V = HashState;

    closed spec fn view(&self) -> HashState {
        HashState { v: self.v@, c: self.c@ }
    }
}

impl<F: HashFn> Hash<F> {
    /// Fills `bytes` with the digests of `v`, `v + 1`, `v + 2`, ...; the
    /// state stays as it is.
    pub fn hashgen(&self, bytes: &mut [u8])
        requires
            self.wf(),
        ensures
            final(bytes)@ == stream(
                hashgen_block::<F>(self@.v),
                F::BLOCK_LEN as nat,
                old(bytes)@.len(),
            ),
    {
        proof {
            F::lemma_dimensions();
            lemma_counter_add_zero(self.v@);
        }
        let ghost blocks = hashgen_block::<F>(self.v@);
        let bl: usize = F::BLOCK_LEN;
        let n: usize = bytes.len();
        let mut data = slice_copy(self.v.as_slice(), 0, self.v.len());
        assert(data@ =~= self.v@);
        let mut pos: usize = 0;
        let ghost mut m: nat = 0;
        assert(bytes@.take(0) =~= stream(blocks, bl as nat, 0));
        while pos < n
            invariant
                bl == F::BLOCK_LEN,
                1 <= bl,
                pos <= n,
                n == bytes@.len(),
                pos == m * bl || pos == n,
                blocks == hashgen_block::<F>(self.v@),
                data@ == counter_add(self.v@, m),
                bytes@.take(pos as int) == stream(blocks, bl as nat, pos as nat),
            decreases n - pos,
        {
            let w = F::hash(data.as_slice());
            let l: usize = if n - pos < bl {
                n - pos
            } else {
                bl
            };
            let ghost before = bytes@;
            copy_at(bytes, pos, w.as_slice(), l);
            crate::hash_based::hash::util::inc(data.as_mut_slice());
            proof {
                lemma_put_block(blocks, bl as nat, m, l as nat, before, bytes@);
                lemma_counter_add_add(self.v@, m, 1);
                m = m + 1;
            }
            pos += l;
        }
        assert(bytes@.take(n as int) =~= bytes@);
    }

    /// The constant that goes with the value `v`.
    fn constant_for(v: &[u8]) -> (c: Vec<u8>)
        ensures
            c@ == spec_hash_df::<F>(seq![0x00u8] + v@),
            c@.len() == F::SEED_LEN,
    {
        let mut data: Vec<u8> = Vec::new();
        data.push(0x00);
        append(&mut data, v);
        assert(data@ =~= seq![0x00u8] + v@);
        hash_df::<F>(data.as_slice())
    }
}

impl<F: HashFn> DrbgVariant for Hash<F> {
    const MAX_RESEED_INTERVAL: u64 = 0x1_0000_0000_0000;

    const SECURITY_STRENGTH: usize = F::SECURITY_STRENGTH;

    open spec fn wf(&self) -> bool {
        &&& self@.v.len() == F::SEED_LEN
        &&& self@.c.len() == F::SEED_LEN
    }

    open spec fn spec_instantiate(
        entropy_input: Seq<u8>,
        nonce: Seq<u8>,
        personalization_string: Seq<u8>,
    ) -> HashState {
        hash_instantiate::<F>(entropy_input, nonce, personalization_string)
    }

    open spec fn spec_reseed(
        state: HashState,
        entropy_input: Seq<u8>,
        additional_input: Seq<u8>,
    ) -> HashState {
        hash_reseed::<F>(state, entropy_input, additional_input)
    }

    open spec fn spec_generate(
        state: HashState,
        n: nat,
        additional_input: Seq<u8>,
        reseed_counter: u64,
    ) -> (HashState, Seq<u8>) {
        hash_generate::<F>(state, n, additional_input, reseed_counter)
    }

    proof fn lemma_limits()
        ensures
            Self::SECURITY_STRENGTH == F::SECURITY_STRENGTH,
    {
        F::lemma_dimensions();
        assert(Self::MAX_RESEED_INTERVAL == 0x1_0000_0000_0000);
        assert(Self::SECURITY_STRENGTH == F::SECURITY_STRENGTH);
    }

    proof fn lemma_generate_len(
        state: HashState,
        n: nat,
        additional_input: Seq<u8>,
        reseed_counter: u64,
    ) {
    }

    fn instantiate(entropy_input: &[u8], nonce: &[u8], personalization_string: &[u8]) -> (variant:
        Self) {
        let mut seed_material: Vec<u8> = Vec::new();
        append(&mut seed_material, entropy_input);
        append(&mut seed_material, nonce);
        append(&mut seed_material, personalization_string);
        let v = hash_df::<F>(seed_material.as_slice());
        let c = Self::constant_for(v.as_slice());
        Hash { v, c, _hash: PhantomData }
    }

    fn reseed(&mut self, entropy_input: &[u8], additional_input: &[u8]) {
        let mut seed_material: Vec<u8> = Vec::new();
        seed_material.push(0x01);
        append(&mut seed_material, self.v.as_slice());
        append(&mut seed_material, entropy_input);
        append(&mut seed_material, additional_input);
        assert(seed_material@ =~= seq![0x01u8] + self.v@ + entropy_input@ + additional_input@);
        self.v = hash_df::<F>(seed_material.as_slice());
        self.c = Self::constant_for(self.v.as_slice());
    }

    fn generate(&mut self, bytes: &mut [u8], additional_input: &[u8], reseed_counter: u64) {
        if additional_input.len() != 0 {
            let mut data: Vec<u8> = Vec::new();
            data.push(0x02);
            append(&mut data, self.v.as_slice());
            append(&mut data, additional_input);
            assert(data@ =~= seq![0x02u8] + self.v@ + additional_input@);
            let w = F::hash(data.as_slice());
            crate::hash_based::hash::util::add(self.v.as_mut_slice(), w.as_slice());
        }
        let ghost v = self.v@;
        self.hashgen(bytes);

        let mut data: Vec<u8> = Vec::new();
        data.push(0x03);
        append(&mut data, self.v.as_slice());
        assert(data@ =~= seq![0x03u8] + self.v@);
        let h = F::hash(data.as_slice());
        let counter = to_be(reseed_counter, 8);

        crate::hash_based::hash::util::add(self.v.as_mut_slice(), h.as_slice());
        crate::hash_based::hash::util::add(self.v.as_mut_slice(), self.c.as_slice());
        crate::hash_based::hash::util::add(self.v.as_mut_slice(), counter.as_slice());
        proof {
            assert(pow256(8) == 0x1_0000_0000_0000_0000) by {
                reveal_with_fuel(pow256, 9);
            }
            lemma_be_bytes_value(reseed_counter as nat, 8);
            assert(be_value(counter@) == reseed_counter as nat) by {
                vstd::arithmetic::div_mod::lemma_small_mod(reseed_counter as nat, pow256(8));
            }
            lemma_counter_add_add(v, be_value(h@), be_value(self.c@));
            lemma_counter_add_add(v, be_value(h@) + be_value(self.c@), reseed_counter as nat);
        }
    }
}

} // verus!

//! Modular arithmetic on the state of Hash_DRBG, and its derivation function.

use crate::arith::{
    be_bytes, be_value, counter_add, lemma_counter_add_step, lemma_put_block, stream,
};
use crate::buf::{append, copy_at, filled, to_be};
use crate::hash_based::hashfn::HashFn;
use vstd::prelude::*;

verus! {

/// Adds the big-endian number `snd` to the big-endian number `fst`, in place
/// and modulo `256^fst.len()`.  The carry runs from the last byte toward the
/// first.  A shorter `snd` counts as padded with zeros on the left; of a
/// longer one only the last `fst.len()` bytes reach the sum.
pub fn add(fst: &mut [u8], snd: &[u8])
    ensures
        final(fst)@ == counter_add(old(fst)@, be_value(snd@)),
        final(fst)@.len() == old(fst)@.len(),
{
    let ghost orig = fst@;
    let n: usize = fst.len();
    let mut carry: u8 = 0;
    let mut i: usize = n;
    let mut j: usize = snd.len();
    proof {
        assert(orig.take(n as int) =~= orig);
        assert(snd@.take(j as int) =~= snd@);
        assert(counter_add(orig, be_value(snd@)) + fst@.skip(n as int) =~= counter_add(
            orig,
            be_value(snd@),
        ));
    }
    while i > 0
        invariant
            i <= n,
            j <= snd@.len(),
            carry <= 1,
            fst@.len() == n,
            orig.len() == n,
            fst@.take(i as int) == orig.take(i as int),
            counter_add(orig, be_value(snd@)) == counter_add(
                orig.take(i as int),
                be_value(snd@.take(j as int)) + carry as nat,
            ) + fst@.skip(i as int),
        decreases i,
    {
        let ghost before = fst@;
        let ghost j_before = j;
        let ghost carry_before = carry;
        i -= 1;
        let b: u8 = if j > 0 {
            j -= 1;
            snd[j]
        } else {
            0
        };
        let a: u8 = fst[i];
        let sum: u16 = a as u16 + b as u16 + carry as u16;
        let digit: u8 = (sum % 256) as u8;
        fst[i] = digit;
        carry = (sum / 256) as u8;
        proof {
            let s = orig.take(i + 1);
            let k = be_value(snd@.take(j_before as int)) + carry_before as nat;
            lemma_counter_add_step(s, k);
            assert(s.drop_last() =~= orig.take(i as int));
            assert(s.last() == a);
            let rest = be_value(snd@.take(j as int));
            if j_before > 0 {
                let t = snd@.take(j_before as int);
                assert(t.drop_last() =~= snd@.take(j as int));
                assert(t.last() == b);
                assert(be_value(t) == 256 * rest + b as nat);
            } else {
                assert(be_value(snd@.take(0)) == 0);
            }
            assert(a as nat + k == 256 * rest + sum as nat);
            assert((a as nat + k) / 256 == rest + carry as nat);
            assert((a as nat + k) % 256 == digit as nat);
            assert(fst@.take(i as int) =~= orig.take(i as int));
            assert(counter_add(orig.take(i as int), rest + carry as nat).push(digit) + before.skip(
                i + 1,
            ) =~= counter_add(orig.take(i as int), rest + carry as nat) + fst@.skip(i as int));
        }
    }
    proof {
        let prefix = orig.take(0);
        let k = be_value(snd@.take(j as int)) + carry as nat;
        assert(counter_add(prefix, k) =~= prefix);
        assert(prefix + fst@.skip(0) =~= fst@);
    }
}

/// Increments `block` as a big-endian number, with wraparound.
pub fn inc(block: &mut [u8])
    ensures
        final(block)@ == counter_add(old(block)@, 1),
        final(block)@.len() == old(block)@.len(),
{
    let one: [u8; 1] = [1];
    proof {
        let s = one@;
        assert(s.drop_last() =~= Seq::<u8>::empty());
        assert(be_value(s) == 256 * be_value(s.drop_last()) + s.last() as nat);
        assert(be_value(s.drop_last()) == 0);
    }
    self::add(block, one.as_slice());
}

/// The blocks of the hash derivation function: block `i` is the digest
/// of the one-byte counter `i + 1`, the number of bits to derive as a 32-bit
/// big-endian number, and the input.
pub open spec fn hash_df_block<F: HashFn>(input: Seq<u8>) -> spec_fn(nat) -> Seq<u8> {
    |i: nat| F::spec_hash(seq![(i + 1) as u8] + be_bytes(8 * (F::SEED_LEN as nat), 4) + input)
}

/// The seed that the hash derivation function makes of `input`.
pub open spec fn spec_hash_df<F: HashFn>(input: Seq<u8>) -> Seq<u8> {
    stream(hash_df_block::<F>(input), F::BLOCK_LEN as nat, F::SEED_LEN as nat)
}

/// The hash derivation function: conditions `input_string` into a seed of
/// `F::SEED_LEN` bytes.
pub fn hash_df<F: HashFn>(input_string: &[u8]) -> (seed: Vec<u8>)
    ensures
        seed@ == spec_hash_df::<F>(input_string@),
        seed@.len() == F::SEED_LEN,
{
    proof {
        F::lemma_dimensions();
    }
    let bl: usize = F::BLOCK_LEN;
    let seed_len: usize = F::SEED_LEN;
    let ghost blocks = hash_df_block::<F>(input_string@);
    let no_of_bits = to_be((seed_len * 8) as u64, 4);
    let mut temp = filled(0, seed_len);
    let mut counter: u8 = 1;
    let mut pos: usize = 0;
    let ghost mut m: nat = 0;
    assert(temp@.take(0) =~= stream(blocks, bl as nat, 0));
    while pos < seed_len
        invariant
            bl == F::BLOCK_LEN,
            seed_len == F::SEED_LEN,
            1 <= bl,
            seed_len <= 111,
            pos <= seed_len,
            pos == m * bl || pos == seed_len,
            m <= pos,
            counter == m + 1,
            temp@.len() == seed_len,
            no_of_bits@ == be_bytes(8 * (seed_len as nat), 4),
            blocks == hash_df_block::<F>(input_string@),
            temp@.take(pos as int) == stream(blocks, bl as nat, pos as nat),
        decreases seed_len - pos,
    {
        let mut data: Vec<u8> = Vec::new();
        data.push(counter);
        append(&mut data, no_of_bits.as_slice());
        append(&mut data, input_string);
        assert(data@ =~= seq![counter] + no_of_bits@ + input_string@);
        let digest = F::hash(data.as_slice());
        let l: usize = if seed_len - pos < bl {
            seed_len - pos
        } else {
            bl
        };
        let ghost before = temp@;
        copy_at(temp.as_mut_slice(), pos, digest.as_slice(), l);
        proof {
            lemma_put_block(blocks, bl as nat, m, l as nat, before, temp@);
            m = m + 1;
        }
        pos += l;
        counter += 1;
    }
    assert(temp@.take(seed_len as int) =~= temp@);
    temp
}

} // verus!

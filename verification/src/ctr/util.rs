//! Counter increment and the block-cipher derivation function of CTR_DRBG.

use crate::arith::{
    be_bytes, counter_add, lemma_be_bytes_len, lemma_be_bytes_succ, lemma_be_bytes_zero,
    lemma_counter_add_step, lemma_counter_add_zero, lemma_put_block, pow256, repeat, stream, xor,
};
use crate::buf::{append, copy_at, filled, to_be, xor_in_place};
use crate::ctr::cipher::Cipher;
use vstd::prelude::*;
use vstd::slice::slice_subrange;

verus! {

/// Increments `block` as a big-endian counter: the last byte is the least
/// significant, the carry runs toward the first byte, and the all-ones
/// counter wraps to all zeros.
pub fn inc(block: &mut [u8])
    ensures
        final(block)@ == counter_add(old(block)@, 1),
        final(block)@.len() == old(block)@.len(),
{
    let ghost orig = block@;
    let n: usize = block.len();
    let mut i: usize = n;
    let mut carry: bool = true;
    proof {
        assert(orig.take(n as int) =~= orig);
        assert(counter_add(orig, 1) + block@.skip(n as int) =~= counter_add(orig, 1));
    }
    while i > 0 && carry
        invariant
            i <= n,
            block@.len() == n,
            orig.len() == n,
            block@.take(i as int) == orig.take(i as int),
            counter_add(orig, 1) == counter_add(
                orig.take(i as int),
                if carry {
                    1nat
                } else {
                    0nat
                },
            ) + block@.skip(i as int),
        decreases i,
    {
        let ghost before = block@;
        i -= 1;
        let b: u8 = block[i];
        let next: u8 = if b == 255 {
            0
        } else {
            b + 1
        };
        block[i] = next;
        carry = next == 0;
        proof {
            let s = orig.take(i + 1);
            lemma_counter_add_step(s, 1);
            assert(s.drop_last() =~= orig.take(i as int));
            assert(s.last() == b);
            assert(block@.take(i as int) =~= orig.take(i as int));
            assert(block@.skip(i as int) =~= seq![next] + before.skip(i + 1));
            assert(counter_add(orig.take(i as int), if carry { 1nat } else { 0nat }).push(next)
                + before.skip(i + 1) =~= counter_add(
                orig.take(i as int),
                if carry {
                    1nat
                } else {
                    0nat
                },
            ) + block@.skip(i as int));
        }
    }
    proof {
        let prefix = orig.take(i as int);
        if carry {
            assert(prefix.len() == 0);
            assert(counter_add(prefix, 1) =~= prefix);
        } else {
            lemma_counter_add_zero(prefix);
        }
        assert(block@.take(i as int) + block@.skip(i as int) =~= block@);
    }
}

/// The key of the derivation function: the bytes 0, 1, 2, ... up to the
/// cipher's key length.
pub open spec fn df_key<C: Cipher>() -> Seq<u8> {
    Seq::new(C::KEY_LEN as nat, |i: int| i as u8)
}

/// The zero bytes that bring `t` bytes up to a whole number of `bl`-byte blocks.
pub open spec fn pad_len(t: nat, bl: nat) -> nat {
    if t % bl == 0 {
        0
    } else {
        (bl - t % bl) as nat
    }
}

/// The string that the derivation function chains over: the input's length
/// and the seed length as 32-bit big-endian numbers, the input, the byte
/// `0x80`, and zeros up to the next block boundary.
pub open spec fn df_padded<C: Cipher>(input: Seq<u8>) -> Seq<u8> {
    let body = be_bytes(input.len(), 4) + be_bytes(C::SEED_LEN as nat, 4) + input + seq![0x80u8];
    body + repeat(0, pad_len(body.len(), C::BLOCK_LEN as nat))
}

/// CBC-MAC chaining over `data`, started from the chaining value `chain`:
/// each block is folded into the chaining value, which is then encrypted.
pub open spec fn bcc_from<C: Cipher>(key: Seq<u8>, chain: Seq<u8>, data: Seq<u8>) -> Seq<u8>
    decreases data.len(),
{
    if data.len() == 0 || C::BLOCK_LEN == 0 {
        chain
    } else {
        let l = if data.len() < C::BLOCK_LEN {
            data.len()
        } else {
            C::BLOCK_LEN as nat
        };
        bcc_from::<C>(key, C::spec_encrypt(key, xor(chain, data.take(l as int))), data.skip(l as int))
    }
}

/// The last chaining block of the CBC-MAC of `data` under `key`, with a
/// zero initial value.
pub open spec fn spec_bcc<C: Cipher>(key: Seq<u8>, data: Seq<u8>) -> Seq<u8> {
    bcc_from::<C>(key, repeat(0, C::BLOCK_LEN as nat), data)
}

/// The block that leads the `i`-th chaining pass: `i` as a 32-bit big-endian
/// number in the first four bytes, zeros behind it.
pub open spec fn df_iv<C: Cipher>(i: nat) -> Seq<u8> {
    be_bytes(i, 4) + repeat(0, (C::BLOCK_LEN - 4) as nat)
}

/// The blocks of the derivation function's first pass over `s`.
pub open spec fn df_pass_block<C: Cipher>(s: Seq<u8>) -> spec_fn(nat) -> Seq<u8> {
    |i: nat| spec_bcc::<C>(df_key::<C>(), df_iv::<C>(i) + s)
}

/// `x` encrypted `i` times over under `key`.
pub open spec fn encrypt_chain<C: Cipher>(key: Seq<u8>, x: Seq<u8>, i: nat) -> Seq<u8>
    decreases i,
{
    if i == 0 {
        x
    } else {
        C::spec_encrypt(key, encrypt_chain::<C>(key, x, (i - 1) as nat))
    }
}

/// The blocks that the derivation function hands out: `x` encrypted once,
/// twice, three times, ...
pub open spec fn df_out_block<C: Cipher>(key: Seq<u8>, x: Seq<u8>) -> spec_fn(nat) -> Seq<u8> {
    |i: nat| encrypt_chain::<C>(key, x, i + 1)
}

/// The seed that the block-cipher derivation function makes of `input`.
pub open spec fn spec_block_cipher_df<C: Cipher>(input: Seq<u8>) -> Seq<u8> {
    let temp = stream(
        df_pass_block::<C>(df_padded::<C>(input)),
        C::BLOCK_LEN as nat,
        C::SEED_LEN as nat,
    );
    let key = temp.take(C::KEY_LEN as int);
    let x = temp.skip(C::KEY_LEN as int);
    stream(df_out_block::<C>(key, x), C::BLOCK_LEN as nat, C::SEED_LEN as nat)
}

/// The final chaining block of the CBC-MAC of `data` under `key`.
pub fn bcc<C: Cipher>(key: &[u8], data: &[u8]) -> (chain: Vec<u8>)
    requires
        key@.len() == C::KEY_LEN,
    ensures
        chain@ == spec_bcc::<C>(key@, data@),
        chain@.len() == C::BLOCK_LEN,
{
    proof {
        C::lemma_dimensions();
    }
    let cipher = C::new(key);
    let mut chain = filled(0, C::BLOCK_LEN);
    let n: usize = data.len();
    let mut pos: usize = 0;
    assert(data@.skip(0) =~= data@);
    while pos < n
        invariant
            pos <= n,
            n == data@.len(),
            4 <= C::BLOCK_LEN,
            cipher.key() == key@,
            key@.len() == C::KEY_LEN,
            chain@.len() == C::BLOCK_LEN,
            spec_bcc::<C>(key@, data@) == bcc_from::<C>(key@, chain@, data@.skip(pos as int)),
        decreases n - pos,
    {
        let l: usize = if n - pos < C::BLOCK_LEN {
            n - pos
        } else {
            C::BLOCK_LEN
        };
        let block = slice_subrange(data, pos, pos + l);
        xor_in_place(chain.as_mut_slice(), block);
        cipher.block_encrypt(chain.as_mut_slice());
        proof {
            let rest = data@.skip(pos as int);
            assert(rest.take(l as int) =~= block@);
            assert(rest.skip(l as int) =~= data@.skip(pos + l));
        }
        pos += l;
    }
    chain
}

/// The block-cipher derivation function: conditions `input_string` into a
/// seed of `C::SEED_LEN` bytes.
///
/// The input's length enters as a 32-bit number, that is modulo `2^32`.
pub fn block_cipher_df<C: Cipher>(input_string: &[u8]) -> (seed: Vec<u8>)
    ensures
        seed@ == spec_block_cipher_df::<C>(input_string@),
        seed@.len() == C::SEED_LEN,
{
    proof {
        C::lemma_dimensions();
        lemma_be_bytes_len(input_string@.len(), 4);
        lemma_be_bytes_len(C::SEED_LEN as nat, 4);
        lemma_be_bytes_zero(4);
    }
    let bl: usize = C::BLOCK_LEN;
    let seed_len: usize = C::SEED_LEN;
    let ghost padded = df_padded::<C>(input_string@);

    let mut s = filled(0, bl);
    let length = to_be(input_string.len() as u64, 4);
    append(&mut s, length.as_slice());
    let wanted = to_be(seed_len as u64, 4);
    append(&mut s, wanted.as_slice());
    append(&mut s, input_string);
    s.push(0x80);
    let r: usize = (s.len() - bl) % bl;
    let pad: usize = if r == 0 {
        0
    } else {
        bl - r
    };
    let zeros = filled(0, pad);
    append(&mut s, zeros.as_slice());
    assert(s@ =~= df_iv::<C>(0) + padded);

    let mut k: Vec<u8> = Vec::new();
    let mut b: u8 = 0;
    while (b as usize) < C::KEY_LEN
        invariant
            b as usize <= C::KEY_LEN <= 32,
            k@ == Seq::new(b as nat, |i: int| i as u8),
        decreases C::KEY_LEN - b as usize,
    {
        k.push(b);
        b += 1;
        assert(k@ =~= Seq::new(b as nat, |i: int| i as u8));
    }

    let mut temp = filled(0, seed_len);
    let mut pos: usize = 0;
    let ghost mut m: nat = 0;
    assert(temp@.take(0) =~= stream(df_pass_block::<C>(padded), bl as nat, 0));
    while pos < seed_len
        invariant
            bl == C::BLOCK_LEN,
            seed_len == C::SEED_LEN,
            4 <= bl <= 256,
            seed_len <= 288,
            pos <= seed_len,
            pos == m * bl || pos == seed_len,
            m <= pos,
            temp@.len() == seed_len,
            k@ == df_key::<C>(),
            k@.len() == C::KEY_LEN,
            s@ == df_iv::<C>(m) + padded,
            temp@.take(pos as int) == stream(df_pass_block::<C>(padded), bl as nat, pos as nat),
        decreases seed_len - pos,
    {
        let chain = bcc::<C>(k.as_slice(), s.as_slice());
        let l: usize = if seed_len - pos < bl {
            seed_len - pos
        } else {
            bl
        };
        let ghost before = temp@;
        copy_at(temp.as_mut_slice(), pos, chain.as_slice(), l);
        proof {
            lemma_put_block(df_pass_block::<C>(padded), bl as nat, m, l as nat, before, temp@);
        }
        pos += l;
        let ghost s_before = s@;
        proof {
            lemma_be_bytes_len(m, 4);
        }
        let (counter, _) = s.as_mut_slice().split_at_mut(4);
        inc(counter);
        proof {
            assert(pow256(4) == 0x1_0000_0000) by {
                reveal_with_fuel(pow256, 5);
            }
            lemma_be_bytes_len(m, 4);
            lemma_be_bytes_succ(m, 4);
            lemma_be_bytes_len(m + 1, 4);
            assert(s_before.subrange(0, 4) =~= be_bytes(m, 4));
            assert(s@ =~= df_iv::<C>(m + 1) + padded);
            m = m + 1;
        }
    }
    assert(temp@.take(seed_len as int) =~= temp@);

    let (k2, mut x) = C::seed_to_key_block(temp.as_slice());
    let cipher = C::new(k2.as_slice());
    let ghost x0 = x@;
    let mut out = filled(0, seed_len);
    let mut pos: usize = 0;
    let ghost mut m: nat = 0;
    assert(out@.take(0) =~= stream(df_out_block::<C>(k2@, x0), bl as nat, 0));
    while pos < seed_len
        invariant
            bl == C::BLOCK_LEN,
            seed_len == C::SEED_LEN,
            4 <= bl,
            pos <= seed_len,
            pos == m * bl || pos == seed_len,
            out@.len() == seed_len,
            cipher.key() == k2@,
            k2@.len() == C::KEY_LEN,
            x@.len() == bl,
            x@ == encrypt_chain::<C>(k2@, x0, m),
            out@.take(pos as int) == stream(df_out_block::<C>(k2@, x0), bl as nat, pos as nat),
        decreases seed_len - pos,
    {
        cipher.block_encrypt(x.as_mut_slice());
        let l: usize = if seed_len - pos < bl {
            seed_len - pos
        } else {
            bl
        };
        let ghost before = out@;
        copy_at(out.as_mut_slice(), pos, x.as_slice(), l);
        proof {
            lemma_put_block(df_out_block::<C>(k2@, x0), bl as nat, m, l as nat, before, out@);
            m = m + 1;
        }
        pos += l;
    }
    assert(out@.take(seed_len as int) =~= out@);
    out
}

} // verus!

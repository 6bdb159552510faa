//! Small verified helpers for moving bytes between buffers.

use crate::arith::{be_bytes, repeat, xor};
use vstd::prelude::*;

verus! {

/// A fresh buffer of `n` bytes, each equal to `b`.
pub fn filled(b: u8, n: usize) -> (v: Vec<u8>)
    ensures
        v@ == repeat(b, n as nat),
{
    let mut v: Vec<u8> = Vec::new();
    let mut i: usize = 0;
    while i < n
        invariant
            i <= n,
            v@ == repeat(b, i as nat),
        decreases n - i,
    {
        v.push(b);
        i += 1;
        assert(v@ =~= repeat(b, i as nat));
    }
    v
}

/// Appends `src` to `dst`.
pub fn append(dst: &mut Vec<u8>, src: &[u8])
    ensures
        final(dst)@ == old(dst)@ + src@,
{
    let ghost orig = dst@;
    let n: usize = src.len();
    let mut i: usize = 0;
    assert(dst@ =~= orig + src@.take(0));
    while i < n
        invariant
            i <= n,
            n == src@.len(),
            dst@ == orig + src@.take(i as int),
        decreases n - i,
    {
        dst.push(src[i]);
        i += 1;
        assert(dst@ =~= orig + src@.take(i as int));
    }
    assert(src@.take(n as int) =~= src@);
}

/// Copies the first `len` bytes of `src` over `dst[pos..pos + len]`.
pub fn copy_at(dst: &mut [u8], pos: usize, src: &[u8], len: usize)
    requires
        pos + len <= old(dst)@.len(),
        len <= src@.len(),
    ensures
        final(dst)@ == old(dst)@.take(pos as int) + src@.take(len as int) + old(dst)@.skip(
            pos + len,
        ),
{
    let ghost orig = dst@;
    let total: usize = dst.len();
    let mut i: usize = 0;
    assert(dst@ =~= orig.take(pos as int) + src@.take(0) + orig.skip(pos as int));
    while i < len
        invariant
            i <= len,
            len <= src@.len(),
            pos + len <= total,
            orig.len() == total,
            dst@.len() == orig.len(),
            dst@ == orig.take(pos as int) + src@.take(i as int) + orig.skip(pos + i),
        decreases len - i,
    {
        dst[pos + i] = src[i];
        i += 1;
        assert(dst@ =~= orig.take(pos as int) + src@.take(i as int) + orig.skip(pos + i));
    }
}

/// Folds `src` into the front of `dst` by exclusive or.
pub fn xor_in_place(dst: &mut [u8], src: &[u8])
    ensures
        final(dst)@ == xor(old(dst)@, src@),
{
    let ghost orig = dst@;
    let n: usize = if dst.len() < src.len() {
        dst.len()
    } else {
        src.len()
    };
    let mut i: usize = 0;
    while i < n
        invariant
            i <= n,
            n <= src@.len(),
            n <= orig.len(),
            n == orig.len() || n == src@.len(),
            dst@.len() == orig.len(),
            forall|k: int| 0 <= k < i ==> dst@[k] == orig[k] ^ src@[k],
            forall|k: int| i <= k < orig.len() ==> dst@[k] == orig[k],
        decreases n - i,
    {
        let x: u8 = dst[i] ^ src[i];
        dst[i] = x;
        i += 1;
    }
    assert(dst@ =~= xor(orig, src@));
}

/// An owned copy of `src[from..to]`.
pub fn slice_copy(src: &[u8], from: usize, to: usize) -> (v: Vec<u8>)
    requires
        from <= to <= src@.len(),
    ensures
        v@ == src@.subrange(from as int, to as int),
{
    let mut v: Vec<u8> = Vec::new();
    let mut i: usize = from;
    assert(v@ =~= src@.subrange(from as int, from as int));
    while i < to
        invariant
            from <= i <= to,
            to <= src@.len(),
            v@ == src@.subrange(from as int, i as int),
        decreases to - i,
    {
        v.push(src[i]);
        i += 1;
        assert(v@ =~= src@.subrange(from as int, i as int));
    }
    v
}

/// The `len` low-order bytes of `v`, most significant first.
pub fn to_be(v: u64, len: usize) -> (out: Vec<u8>)
    ensures
        out@ == be_bytes(v as nat, len as nat),
{
    let mut out = filled(0, len);
    let mut x: u64 = v;
    let mut i: usize = len;
    assert(be_bytes(v as nat, len as nat) =~= be_bytes(x as nat, i as nat) + out@.skip(i as int));
    while i > 0
        invariant
            i <= len,
            out@.len() == len,
            be_bytes(v as nat, len as nat) == be_bytes(x as nat, i as nat) + out@.skip(i as int),
        decreases i,
    {
        let ghost before = out@;
        i -= 1;
        let digit: u8 = (x % 256) as u8;
        out[i] = digit;
        proof {
            assert(be_bytes(x as nat, (i + 1) as nat) == be_bytes(x as nat / 256, i as nat).push(
                digit,
            ));
            assert(be_bytes(x as nat / 256, i as nat).push(digit) + before.skip(i + 1)
                =~= be_bytes(x as nat / 256, i as nat) + out@.skip(i as int));
        }
        x = x / 256;
    }
    assert(be_bytes(x as nat, 0) + out@.skip(0) =~= out@);
    out
}

} // verus!

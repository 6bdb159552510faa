//! Byte strings read as big-endian naturals.
//!
//! The generators treat several of their state variables as unsigned
//! integers written most-significant byte first and add to them modulo
//! `256^len`.  This module gives that reading a mathematical model and
//! proves the facts the rest of the crate needs about it.

use vstd::arithmetic::div_mod::lemma_mod_breakdown;
use vstd::prelude::*;

verus! {

/// `256^n`.
pub open spec fn pow256(n: nat) -> nat
    decreases n,
{
    if n == 0 {
        1
    } else {
        256 * pow256((n - 1) as nat)
    }
}

/// The natural number that `s` spells when read most-significant byte first.
pub open spec fn be_value(s: Seq<u8>) -> nat
    decreases s.len(),
{
    if s.len() == 0 {
        0
    } else {
        256 * be_value(s.drop_last()) + s.last() as nat
    }
}

/// The `len` least-significant base-256 digits of `v`, most significant first.
pub open spec fn be_bytes(v: nat, len: nat) -> Seq<u8>
    decreases len,
{
    if len == 0 {
        Seq::empty()
    } else {
        be_bytes(v / 256, (len - 1) as nat).push((v % 256) as u8)
    }
}

/// `s + k` as a counter of `s.len()` bytes: the sum wraps modulo `256^s.len()`.
pub open spec fn counter_add(s: Seq<u8>, k: nat) -> Seq<u8> {
    be_bytes(be_value(s) + k, s.len())
}

/// `n` bytes, each equal to `b`.
pub open spec fn repeat(b: u8, n: nat) -> Seq<u8> {
    Seq::new(n, |i: int| b)
}

/// `a` with `b` folded into its front by exclusive or.  The result is as long
/// as `a`; where `b` is the shorter, the bytes of `a` behind it stay.
pub open spec fn xor(a: Seq<u8>, b: Seq<u8>) -> Seq<u8> {
    Seq::new(
        a.len(),
        |i: int|
            if i < b.len() {
                a[i] ^ b[i]
            } else {
                a[i]
            },
    )
}

/// The number of `d`-byte blocks that it takes to hold `n` bytes.
pub open spec fn div_ceil(n: nat, d: nat) -> nat {
    ((n + d - 1) / (d as int)) as nat
}

/// The first `n` bytes of the blocks `block(0)`, `block(1)`, ... laid end to
/// end, each block `bl` bytes long: byte `j` is byte `j % bl` of block
/// `j / bl`.
pub open spec fn stream(block: spec_fn(nat) -> Seq<u8>, bl: nat, n: nat) -> Seq<u8> {
    Seq::new(n, |j: int| block((j / (bl as int)) as nat)[j % (bl as int)])
}

pub proof fn lemma_pow256_positive(n: nat)
    ensures
        pow256(n) > 0,
    decreases n,
{
    if n > 0 {
        lemma_pow256_positive((n - 1) as nat);
    }
}

pub proof fn lemma_be_bytes_len(v: nat, len: nat)
    ensures
        be_bytes(v, len).len() == len,
    decreases len,
{
    if len > 0 {
        lemma_be_bytes_len(v / 256, (len - 1) as nat);
    }
}

pub proof fn lemma_counter_add_len(s: Seq<u8>, k: nat)
    ensures
        counter_add(s, k).len() == s.len(),
{
    lemma_be_bytes_len(be_value(s) + k, s.len());
}

/// Adding to a counter works digit by digit from the right: the last byte
/// takes the sum modulo 256 and what is left carries into the bytes before it.
pub proof fn lemma_counter_add_step(s: Seq<u8>, k: nat)
    requires
        s.len() > 0,
    ensures
        counter_add(s, k) == counter_add(s.drop_last(), (s.last() as nat + k) / 256).push(
            ((s.last() as nat + k) % 256) as u8,
        ),
{
    let hi = be_value(s.drop_last());
    let lo = s.last() as nat;
    assert(be_value(s) == 256 * hi + lo);
    assert((256 * hi + lo + k) / 256 == hi + (lo + k) / 256);
    assert((256 * hi + lo + k) % 256 == (lo + k) % 256);
    assert(s.drop_last().len() == s.len() - 1);
}

/// Writing a value back with as many bytes as it was read from changes nothing.
pub proof fn lemma_counter_add_zero(s: Seq<u8>)
    ensures
        counter_add(s, 0) == s,
    decreases s.len(),
{
    if s.len() == 0 {
        assert(counter_add(s, 0) =~= s);
    } else {
        lemma_counter_add_step(s, 0);
        lemma_counter_add_zero(s.drop_last());
        assert(s.drop_last().push(s.last()) =~= s);
    }
}

/// Two additions in a row are one addition of the sum.
pub proof fn lemma_counter_add_add(s: Seq<u8>, a: nat, b: nat)
    ensures
        counter_add(counter_add(s, a), b) == counter_add(s, a + b),
    decreases s.len(),
{
    lemma_counter_add_len(s, a);
    if s.len() == 0 {
        assert(counter_add(counter_add(s, a), b) =~= counter_add(s, a + b));
    } else {
        let l = s.last() as nat;
        let t = counter_add(s, a);
        lemma_counter_add_step(s, a);
        lemma_counter_add_step(s, a + b);
        lemma_counter_add_step(t, b);
        let q = (l + a) / 256;
        let r = (l + a) % 256;
        assert(t.last() == r as u8);
        assert(t.drop_last() =~= counter_add(s.drop_last(), q));
        lemma_counter_add_add(s.drop_last(), q, (r + b) / 256);
        assert(q + (r + b) / 256 == (l + a + b) / 256);
        assert((r + b) % 256 == (l + a + b) % 256);
    }
}

/// `be_bytes(v, len)` spells `v` reduced modulo `256^len`.
pub proof fn lemma_be_bytes_value(v: nat, len: nat)
    ensures
        be_value(be_bytes(v, len)) == v % pow256(len),
    decreases len,
{
    if len == 0 {
        assert(v % 1 == 0);
    } else {
        let rest = be_bytes(v / 256, (len - 1) as nat);
        let s = be_bytes(v, len);
        lemma_be_bytes_value(v / 256, (len - 1) as nat);
        assert(s.drop_last() =~= rest);
        assert(s.last() == (v % 256) as u8);
        lemma_pow256_positive((len - 1) as nat);
        lemma_mod_breakdown(v as int, 256, pow256((len - 1) as nat) as int);
    }
}

/// What `counter_add` means as arithmetic: addition modulo `256^len`.
pub proof fn lemma_counter_add_value(s: Seq<u8>, k: nat)
    ensures
        counter_add(s, k).len() == s.len(),
        be_value(counter_add(s, k)) == (be_value(s) + k) % pow256(s.len()),
{
    lemma_counter_add_len(s, k);
    lemma_be_bytes_value(be_value(s) + k, s.len());
}

/// A byte string of a given length is determined by its value.
pub proof fn lemma_be_value_injective(a: Seq<u8>, b: Seq<u8>)
    requires
        a.len() == b.len(),
        be_value(a) == be_value(b),
    ensures
        a == b,
{
    lemma_counter_add_zero(a);
    lemma_counter_add_zero(b);
}

/// Incrementing the all-ones counter wraps around to the all-zeros counter.
pub proof fn lemma_increment_wraps(n: nat)
    ensures
        counter_add(repeat(0xff, n), 1) == repeat(0x00, n),
    decreases n,
{
    let ones = repeat(0xff, n);
    if n == 0 {
        assert(counter_add(ones, 1) =~= repeat(0x00, n));
    } else {
        lemma_counter_add_step(ones, 1);
        lemma_increment_wraps((n - 1) as nat);
        assert(ones.drop_last() =~= repeat(0xff, (n - 1) as nat));
        assert(repeat(0x00, (n - 1) as nat).push(0u8) =~= repeat(0x00, n));
    }
}

/// The value of two byte strings in a row: the first counts for as many
/// places further up as the second is long.
pub proof fn lemma_be_value_concat(a: Seq<u8>, b: Seq<u8>)
    ensures
        be_value(a + b) == be_value(a) * pow256(b.len()) + be_value(b),
    decreases b.len(),
{
    let x = be_value(a);
    if b.len() == 0 {
        assert(a + b =~= a);
        assert(pow256(0) == 1);
        assert(x * 1 == x);
    } else {
        let front = b.drop_last();
        lemma_be_value_concat(a, front);
        assert((a + b).drop_last() =~= a + front);
        assert((a + b).last() == b.last());
        let p = pow256(front.len());
        assert(pow256(b.len()) == 256 * p);
        assert(be_value(a + b) == 256 * (x * p + be_value(front)) + b.last() as nat);
        assert(256 * (x * p + be_value(front)) == x * (256 * p) + 256 * be_value(front))
            by (nonlinear_arith);
    }
}

/// An operand that is shorter than the counter counts as padded with zeros
/// on the left: zeros in front change no value.
pub proof fn lemma_be_value_leading_zeros(k: nat, s: Seq<u8>)
    ensures
        be_value(repeat(0, k) + s) == be_value(s),
{
    lemma_be_value_concat(repeat(0, k), s);
    lemma_be_bytes_zero(k);
    lemma_be_bytes_value(0, k);
    lemma_pow256_positive(k);
    assert(0nat % pow256(k) == 0);
    assert(0 * pow256(s.len()) == 0);
}

/// Of an operand that is longer than the counter only the low bytes, as
/// many as the counter has, reach the sum.
pub proof fn lemma_counter_add_low_bytes(s: Seq<u8>, operand: Seq<u8>)
    requires
        operand.len() >= s.len(),
    ensures
        counter_add(s, be_value(operand)) == counter_add(
            s,
            be_value(operand.skip(operand.len() - s.len())),
        ),
{
    let cut = operand.len() - s.len();
    let high = operand.take(cut);
    let low = operand.skip(cut);
    assert(high + low =~= operand);
    lemma_be_value_concat(high, low);
    lemma_counter_add_mod(s, be_value(low), be_value(high));
    assert(be_value(high) * pow256(low.len()) + be_value(low) == be_value(low) + be_value(high)
        * pow256(s.len()));
}

/// Bytes in front of the low `len` bytes of an operand do not reach a
/// `len`-byte sum: only the operand's value modulo `256^len` matters.
pub proof fn lemma_counter_add_mod(s: Seq<u8>, k: nat, j: nat)
    ensures
        counter_add(s, k + j * pow256(s.len())) == counter_add(s, k),
{
    let m = pow256(s.len());
    lemma_pow256_positive(s.len());
    lemma_counter_add_value(s, k);
    lemma_counter_add_value(s, k + j * m);
    let x = (be_value(s) + k) as int;
    assert((x + (j * m) as int) % (m as int) == x % (m as int)) by {
        vstd::arithmetic::div_mod::lemma_mod_multiples_vanish(j as int, x, m as int);
        assert((j * m) as int == (m as int) * (j as int)) by (nonlinear_arith);
    }
    lemma_be_value_injective(counter_add(s, k + j * m), counter_add(s, k));
}

/// Inside block `m`, division by the block length gives `m` and the
/// remainder gives the offset.
pub proof fn lemma_block_index(j: int, m: nat, bl: nat)
    requires
        bl > 0,
        m * bl <= j < m * bl + bl,
    ensures
        j / (bl as int) == m,
        j % (bl as int) == j - m * bl,
{
    vstd::arithmetic::div_mod::lemma_fundamental_div_mod_converse(
        j,
        bl as int,
        m as int,
        j - m * bl,
    );
}

/// The block count for `n` bytes is the one `m` whose blocks reach `n` while
/// one block fewer would not.
pub proof fn lemma_div_ceil_unique(n: nat, d: nat, m: nat)
    requires
        d > 0,
        n <= m * d,
        m == 0 || (m - 1) * d < n,
    ensures
        div_ceil(n, d) == m,
{
    let x = (n + d - 1) as int;
    assert(m * d + d == (m + 1) * d) by (nonlinear_arith);
    if m > 0 {
        assert((m - 1) * d + d == m * d) by (nonlinear_arith);
    }
    vstd::arithmetic::div_mod::lemma_fundamental_div_mod_converse(
        x,
        d as int,
        m as int,
        x - m * d,
    );
}

/// Writing the front of block `m` behind the first `m` whole blocks of a
/// stream gives a longer front of the same stream.
pub proof fn lemma_stream_extend(
    block: spec_fn(nat) -> Seq<u8>,
    bl: nat,
    m: nat,
    l: nat,
    buf: Seq<u8>,
)
    requires
        bl > 0,
        l <= bl,
        block(m).len() == bl,
        buf.len() >= m * bl + l,
        buf.take((m * bl) as int) == stream(block, bl, m * bl),
        buf.subrange((m * bl) as int, (m * bl + l) as int) == block(m).take(l as int),
    ensures
        buf.take((m * bl + l) as int) == stream(block, bl, m * bl + l),
{
    let p = (m * bl) as int;
    let a = buf.take(p + l);
    let b = stream(block, bl, (p + l) as nat);
    assert(a.len() == b.len());
    assert forall|j: int| 0 <= j < a.len() implies a[j] == b[j] by {
        assert(a[j] == buf[j]);
        assert(b[j] == block((j / (bl as int)) as nat)[j % (bl as int)]);
        if j < p {
            assert(buf.take(p)[j] == buf[j]);
            assert(stream(block, bl, p as nat)[j] == block((j / (bl as int)) as nat)[j % (
            bl as int)]);
        } else {
            lemma_block_index(j, m, bl);
            assert(buf.subrange(p, p + l)[j - p] == buf[j]);
            assert(block(m).take(l as int)[j - p] == block(m)[j - p]);
        }
    }
    assert(a =~= b);
}

/// One step of laying a stream into a buffer: with the first `m` blocks in
/// place, overwriting what follows them by the front of block `m` leaves a
/// longer front of the stream in place.
pub proof fn lemma_put_block(
    block: spec_fn(nat) -> Seq<u8>,
    bl: nat,
    m: nat,
    l: nat,
    before: Seq<u8>,
    after: Seq<u8>,
)
    requires
        bl > 0,
        l <= bl,
        block(m).len() == bl,
        before.len() >= m * bl + l,
        before.take((m * bl) as int) == stream(block, bl, m * bl),
        after == before.take((m * bl) as int) + block(m).take(l as int) + before.skip(
            (m * bl + l) as int,
        ),
    ensures
        after.len() == before.len(),
        after.take((m * bl + l) as int) == stream(block, bl, m * bl + l),
        (m + 1) * bl == m * bl + bl,
{
    let p = (m * bl) as int;
    assert(after.take(p) =~= before.take(p));
    assert(after.subrange(p, p + l) =~= block(m).take(l as int));
    lemma_stream_extend(block, bl, m, l, after);
    assert((m + 1) * bl == m * bl + bl) by (nonlinear_arith);
}

/// The big-endian counter of `len` bytes that spells `i`, one further on.
pub proof fn lemma_be_bytes_succ(i: nat, len: nat)
    requires
        i < pow256(len),
    ensures
        counter_add(be_bytes(i, len), 1) == be_bytes(i + 1, len),
{
    lemma_be_bytes_len(i, len);
    lemma_be_bytes_value(i, len);
    assert(i % pow256(len) == i) by {
        vstd::arithmetic::div_mod::lemma_small_mod(i, pow256(len));
    }
}

/// Zero, written with any number of bytes, is all zeros.
pub proof fn lemma_be_bytes_zero(len: nat)
    ensures
        be_bytes(0, len) == repeat(0, len),
    decreases len,
{
    if len == 0 {
        assert(be_bytes(0, len) =~= repeat(0, len));
    } else {
        lemma_be_bytes_zero((len - 1) as nat);
        assert(repeat(0, (len - 1) as nat).push(0u8) =~= repeat(0, len));
    }
}

} // verus!

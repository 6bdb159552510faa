//! The block cipher under CTR_DRBG: a trait that fixes its dimensions and
//! its single-block encryption, and AES with 128, 192 and 256 bit keys.

use crate::buf::{copy_at, slice_copy};
use aes::cipher::generic_array::GenericArray;
use aes::cipher::{BlockEncrypt, KeyInit};
use aes::{Aes128Enc, Aes192Enc, Aes256Enc};
use vstd::prelude::*;

verus! {

/// A block cipher as CTR_DRBG uses it.
///
/// `spec_encrypt` is the cipher as a mathematical function of key and block;
/// the executable methods are bound to it.
pub trait Cipher: Sized {
    /// Bytes in a block.
    const BLOCK_LEN: usize;

    /// Bytes in a key.
    const KEY_LEN: usize;

    /// Bytes in a seed: one key and one block.
    const SEED_LEN: usize;

    /// Bytes of security strength.
    const SECURITY_STRENGTH: usize;

    /// The most bytes that one generate request may ask for.
    const MAX_NUMBER_OF_BYTES_PER_REQUEST: u32;

    /// The most generate requests between two reseeds.
    const MAX_RESEED_INTERVAL: u64;

    /// The encryption of one block under a key.
    spec fn spec_encrypt(key: Seq<u8>, block: Seq<u8>) -> Seq<u8>;

    /// The key that this instance encrypts under.
    spec fn key(&self) -> Seq<u8>;

    /// The dimensions fit together as the generator needs them to.
    proof fn lemma_dimensions()
        ensures
            4 <= Self::BLOCK_LEN <= 256,
            1 <= Self::KEY_LEN <= 32,
            Self::SEED_LEN == Self::BLOCK_LEN + Self::KEY_LEN,
            Self::SECURITY_STRENGTH == Self::KEY_LEN,
            Self::MAX_NUMBER_OF_BYTES_PER_REQUEST == 0x1_0000,
            Self::MAX_RESEED_INTERVAL == 0x1_0000_0000_0000,
    ;

    /// A cipher instance for `key`.
    fn new(key: &[u8]) -> (cipher: Self)
        requires
            key@.len() == Self::KEY_LEN,
        ensures
            cipher.key() == key@,
    ;

    /// Encrypts `block` in place.
    fn block_encrypt(&self, block: &mut [u8])
        requires
            self.key().len() == Self::KEY_LEN,
            old(block)@.len() == Self::BLOCK_LEN,
        ensures
            final(block)@ == Self::spec_encrypt(self.key(), old(block)@),
            final(block)@.len() == Self::BLOCK_LEN,
    ;

    /// The encryption of `block`, which stays as it is.
    fn block_encrypt_b2b(&self, block: &[u8]) -> (out: Vec<u8>)
        requires
            self.key().len() == Self::KEY_LEN,
            block@.len() == Self::BLOCK_LEN,
        ensures
            out@ == Self::spec_encrypt(self.key(), block@),
            out@.len() == Self::BLOCK_LEN,
    ;

    /// Splits a seed into the key at its front and the block behind it.
    fn seed_to_key_block(seed: &[u8]) -> (parts: (Vec<u8>, Vec<u8>))
        requires
            seed@.len() == Self::SEED_LEN,
        ensures
            parts.0@ == seed@.take(Self::KEY_LEN as int),
            parts.1@ == seed@.skip(Self::KEY_LEN as int),
            parts.0@.len() == Self::KEY_LEN,
            parts.1@.len() == Self::BLOCK_LEN,
    {
        proof {
            Self::lemma_dimensions();
        }
        let key = slice_copy(seed, 0, Self::KEY_LEN);
        let block = slice_copy(seed, Self::KEY_LEN, seed.len());
        (key, block)
    }
}

/// What `aes::Aes128Enc`, keyed with the 16 bytes `key`, makes of the
/// 16-byte block `block`.
pub uninterp spec fn aes128_encrypt(key: Seq<u8>, block: Seq<u8>) -> Seq<u8>;

/// What `aes::Aes192Enc`, keyed with the 24 bytes `key`, makes of the
/// 16-byte block `block`.
pub uninterp spec fn aes192_encrypt(key: Seq<u8>, block: Seq<u8>) -> Seq<u8>;

/// What `aes::Aes256Enc`, keyed with the 32 bytes `key`, makes of the
/// 16-byte block `block`.
pub uninterp spec fn aes256_encrypt(key: Seq<u8>, block: Seq<u8>) -> Seq<u8>;

/// Trusted: keys `aes::Aes128Enc` through `KeyInit::new` and encrypts one
/// block with `BlockEncrypt::encrypt_block_b2b`.  The contract names the
/// 16-byte result; both calls need the exact lengths that `requires` asks for.
#[verifier::external_body]
fn aes128_encrypt_block(key: &[u8], block: &[u8]) -> (out: Vec<u8>)
    requires
        key@.len() == 16,
        block@.len() == 16,
    ensures
        out@ == aes128_encrypt(key@, block@),
        out@.len() == 16,
{
    let cipher = Aes128Enc::new(GenericArray::from_slice(key));
    let mut out = aes::Block::default();
    cipher.encrypt_block_b2b(GenericArray::from_slice(block), &mut out);
    out.to_vec()
}

/// Trusted: keys `aes::Aes192Enc` through `KeyInit::new` and encrypts one
/// block with `BlockEncrypt::encrypt_block_b2b`.  The contract names the
/// 16-byte result; both calls need the exact lengths that `requires` asks for.
#[verifier::external_body]
fn aes192_encrypt_block(key: &[u8], block: &[u8]) -> (out: Vec<u8>)
    requires
        key@.len() == 24,
        block@.len() == 16,
    ensures
        out@ == aes192_encrypt(key@, block@),
        out@.len() == 16,
{
    let cipher = Aes192Enc::new(GenericArray::from_slice(key));
    let mut out = aes::Block::default();
    cipher.encrypt_block_b2b(GenericArray::from_slice(block), &mut out);
    out.to_vec()
}

/// Trusted: keys `aes::Aes256Enc` through `KeyInit::new` and encrypts one
/// block with `BlockEncrypt::encrypt_block_b2b`.  The contract names the
/// 16-byte result; both calls need the exact lengths that `requires` asks for.
#[verifier::external_body]
fn aes256_encrypt_block(key: &[u8], block: &[u8]) -> (out: Vec<u8>)
    requires
        key@.len() == 32,
        block@.len() == 16,
    ensures
        out@ == aes256_encrypt(key@, block@),
        out@.len() == 16,
{
    let cipher = Aes256Enc::new(GenericArray::from_slice(key));
    let mut out = aes::Block::default();
    cipher.encrypt_block_b2b(GenericArray::from_slice(block), &mut out);
    out.to_vec()
}

/// AES with a 128-bit key.
pub struct Aes128 {
    key: Vec<u8>,
}

/// AES with a 192-bit key.
pub struct Aes192 {
    key: Vec<u8>,
}

/// AES with a 256-bit key.
pub struct Aes256 {
    key: Vec<u8>,
}

impl Cipher for Aes128 {
    const BLOCK_LEN: usize = 16;

    const KEY_LEN: usize = 16;

    const SEED_LEN: usize = 32;

    const SECURITY_STRENGTH: usize = 16;

    const MAX_NUMBER_OF_BYTES_PER_REQUEST: u32 = 0x1_0000;

    const MAX_RESEED_INTERVAL: u64 = 0x1_0000_0000_0000;

    open spec fn spec_encrypt(key: Seq<u8>, block: Seq<u8>) -> Seq<u8> {
        aes128_encrypt(key, block)
    }

    closed spec fn key(&self) -> Seq<u8> {
        self.key@
    }

    proof fn lemma_dimensions()
        ensures
            Self::BLOCK_LEN == 16,
            Self::KEY_LEN == 16,
            Self::SEED_LEN == 32,
            Self::SECURITY_STRENGTH == 16,
    {
        assert(Self::BLOCK_LEN == 16 && Self::KEY_LEN == 16 && Self::SEED_LEN == 32);
        assert(Self::SECURITY_STRENGTH == 16);
        assert(Self::MAX_NUMBER_OF_BYTES_PER_REQUEST == 0x1_0000);
        assert(Self::MAX_RESEED_INTERVAL == 0x1_0000_0000_0000);
    }

    fn new(key: &[u8]) -> (cipher: Self) {
        Aes128 { key: slice_copy(key, 0, key.len()) }
    }

    fn block_encrypt(&self, block: &mut [u8]) {
        let out = aes128_encrypt_block(self.key.as_slice(), block);
        copy_at(block, 0, out.as_slice(), 16);
        assert(block@ =~= out@);
    }

    fn block_encrypt_b2b(&self, block: &[u8]) -> (out: Vec<u8>) {
        aes128_encrypt_block(self.key.as_slice(), block)
    }
}

impl Cipher for Aes192 {
    const BLOCK_LEN: usize = 16;

    const KEY_LEN: usize = 24;

    const SEED_LEN: usize = 40;

    const SECURITY_STRENGTH: usize = 24;

    const MAX_NUMBER_OF_BYTES_PER_REQUEST: u32 = 0x1_0000;

    const MAX_RESEED_INTERVAL: u64 = 0x1_0000_0000_0000;

    open spec fn spec_encrypt(key: Seq<u8>, block: Seq<u8>) -> Seq<u8> {
        aes192_encrypt(key, block)
    }

    closed spec fn key(&self) -> Seq<u8> {
        self.key@
    }

    proof fn lemma_dimensions()
        ensures
            Self::BLOCK_LEN == 16,
            Self::KEY_LEN == 24,
            Self::SEED_LEN == 40,
            Self::SECURITY_STRENGTH == 24,
    {
        assert(Self::BLOCK_LEN == 16 && Self::KEY_LEN == 24 && Self::SEED_LEN == 40);
        assert(Self::SECURITY_STRENGTH == 24);
        assert(Self::MAX_NUMBER_OF_BYTES_PER_REQUEST == 0x1_0000);
        assert(Self::MAX_RESEED_INTERVAL == 0x1_0000_0000_0000);
    }

    fn new(key: &[u8]) -> (cipher: Self) {
        Aes192 { key: slice_copy(key, 0, key.len()) }
    }

    fn block_encrypt(&self, block: &mut [u8]) {
        let out = aes192_encrypt_block(self.key.as_slice(), block);
        copy_at(block, 0, out.as_slice(), 16);
        assert(block@ =~= out@);
    }

    fn block_encrypt_b2b(&self, block: &[u8]) -> (out: Vec<u8>) {
        aes192_encrypt_block(self.key.as_slice(), block)
    }
}

impl Cipher for Aes256 {
    const BLOCK_LEN: usize = 16;

    const KEY_LEN: usize = 32;

    const SEED_LEN: usize = 48;

    const SECURITY_STRENGTH: usize = 32;

    const MAX_NUMBER_OF_BYTES_PER_REQUEST: u32 = 0x1_0000;

    const MAX_RESEED_INTERVAL: u64 = 0x1_0000_0000_0000;

    open spec fn spec_encrypt(key: Seq<u8>, block: Seq<u8>) -> Seq<u8> {
        aes256_encrypt(key, block)
    }

    closed spec fn key(&self) -> Seq<u8> {
        self.key@
    }

    proof fn lemma_dimensions()
        ensures
            Self::BLOCK_LEN == 16,
            Self::KEY_LEN == 32,
            Self::SEED_LEN == 48,
            Self::SECURITY_STRENGTH == 32,
    {
        assert(Self::BLOCK_LEN == 16 && Self::KEY_LEN == 32 && Self::SEED_LEN == 48);
        assert(Self::SECURITY_STRENGTH == 32);
        assert(Self::MAX_NUMBER_OF_BYTES_PER_REQUEST == 0x1_0000);
        assert(Self::MAX_RESEED_INTERVAL == 0x1_0000_0000_0000);
    }

    fn new(key: &[u8]) -> (cipher: Self) {
        Aes256 { key: slice_copy(key, 0, key.len()) }
    }

    fn block_encrypt(&self, block: &mut [u8]) {
        let out = aes256_encrypt_block(self.key.as_slice(), block);
        copy_at(block, 0, out.as_slice(), 16);
        assert(block@ =~= out@);
    }

    fn block_encrypt_b2b(&self, block: &[u8]) -> (out: Vec<u8>) {
        aes256_encrypt_block(self.key.as_slice(), block)
    }
}

} // verus!

//! The hash function under Hash_DRBG and HMAC_DRBG: a trait that fixes its
//! dimensions, its digest and its HMAC, and the six SHA-2 functions.

use hmac::{Hmac, Mac};
use sha2::Digest;
use vstd::prelude::*;

verus! {

/// A hash function as the hash-based generators use it.
///
/// `spec_hash` and `spec_hmac` are the digest and the keyed digest as
/// mathematical functions; the executable methods are bound to them.
pub trait HashFn: Sized {
    /// Bytes in a digest.
    const BLOCK_LEN: usize;

    /// Bytes in a seed.
    const SEED_LEN: usize;

    /// Bytes of security strength.
    const SECURITY_STRENGTH: usize;

    /// The most generate requests between two reseeds.
    const MAX_RESEED_INTERVAL: u64;

    /// The digest of `data`.
    spec fn spec_hash(data: Seq<u8>) -> Seq<u8>;

    /// The HMAC of `input` under `key`.
    spec fn spec_hmac(key: Seq<u8>, input: Seq<u8>) -> Seq<u8>;

    /// The dimensions are within what the generators can work with.
    proof fn lemma_dimensions()
        ensures
            1 <= Self::BLOCK_LEN <= 64,
            Self::SEED_LEN == 55 || Self::SEED_LEN == 111,
            1 <= Self::SECURITY_STRENGTH <= 32,
            Self::MAX_RESEED_INTERVAL == 0x1_0000_0000_0000,
    ;

    /// The digest of `data`.
    fn hash(data: &[u8]) -> (out: Vec<u8>)
        ensures
            out@ == Self::spec_hash(data@),
            out@.len() == Self::BLOCK_LEN,
    ;

    /// The HMAC of `input` under `key`.
    fn hmac(key: &[u8], input: &[u8]) -> (out: Vec<u8>)
        ensures
            out@ == Self::spec_hmac(key@, input@),
            out@.len() == Self::BLOCK_LEN,
    ;
}

/// The SHA-224 digest of `data`, as `sha2::Sha224` computes it.
pub uninterp spec fn sha224(data: Seq<u8>) -> Seq<u8>;

/// The HMAC of `input` under `key` with SHA-224, as `hmac::Hmac<sha2::Sha224>`
/// computes it.
pub uninterp spec fn hmac_sha224(key: Seq<u8>, input: Seq<u8>) -> Seq<u8>;

/// Trusted: `Digest::digest` of `sha2::Sha224`.  The contract names the
/// digest, which has 28 bytes.
#[verifier::external_body]
fn sha224_digest(data: &[u8]) -> (out: Vec<u8>)
    ensures
        out@ == sha224(data@),
        out@.len() == 28,
{
    sha2::Sha224::digest(data).to_vec()
}

/// Trusted: `hmac::Hmac<sha2::Sha224>`, keyed by `Mac::new_from_slice`, fed by
/// `Mac::update` and read out by `Mac::finalize`.  The contract names the
/// tag, which has 28 bytes.  HMAC takes a key of any length, so keying
/// does not fail.
#[verifier::external_body]
fn sha224_mac(key: &[u8], input: &[u8]) -> (out: Vec<u8>)
    ensures
        out@ == hmac_sha224(key@, input@),
        out@.len() == 28,
{
    let mut mac = Hmac::<sha2::Sha224>::new_from_slice(key).expect("HMAC takes a key of any length");
    mac.update(input);
    mac.finalize().into_bytes().to_vec()
}

/// The SHA-512/224 digest of `data`, as `sha2::Sha512_224` computes it.
pub uninterp spec fn sha512_224(data: Seq<u8>) -> Seq<u8>;

/// The HMAC of `input` under `key` with SHA-512/224, as `hmac::Hmac<sha2::Sha512_224>`
/// computes it.
pub uninterp spec fn hmac_sha512_224(key: Seq<u8>, input: Seq<u8>) -> Seq<u8>;

/// Trusted: `Digest::digest` of `sha2::Sha512_224`.  The contract names the
/// digest, which has 28 bytes.
#[verifier::external_body]
fn sha512_224_digest(data: &[u8]) -> (out: Vec<u8>)
    ensures
        out@ == sha512_224(data@),
        out@.len() == 28,
{
    sha2::Sha512_224::digest(data).to_vec()
}

/// Trusted: `hmac::Hmac<sha2::Sha512_224>`, keyed by `Mac::new_from_slice`, fed by
/// `Mac::update` and read out by `Mac::finalize`.  The contract names the
/// tag, which has 28 bytes.  HMAC takes a key of any length, so keying
/// does not fail.
#[verifier::external_body]
fn sha512_224_mac(key: &[u8], input: &[u8]) -> (out: Vec<u8>)
    ensures
        out@ == hmac_sha512_224(key@, input@),
        out@.len() == 28,
{
    let mut mac = Hmac::<sha2::Sha512_224>::new_from_slice(key).expect("HMAC takes a key of any length");
    mac.update(input);
    mac.finalize().into_bytes().to_vec()
}

/// The SHA-256 digest of `data`, as `sha2::Sha256` computes it.
pub uninterp spec fn sha256(data: Seq<u8>) -> Seq<u8>;

/// The HMAC of `input` under `key` with SHA-256, as `hmac::Hmac<sha2::Sha256>`
/// computes it.
pub uninterp spec fn hmac_sha256(key: Seq<u8>, input: Seq<u8>) -> Seq<u8>;

/// Trusted: `Digest::digest` of `sha2::Sha256`.  The contract names the
/// digest, which has 32 bytes.
#[verifier::external_body]
fn sha256_digest(data: &[u8]) -> (out: Vec<u8>)
    ensures
        out@ == sha256(data@),
        out@.len() == 32,
{
    sha2::Sha256::digest(data).to_vec()
}

/// Trusted: `hmac::Hmac<sha2::Sha256>`, keyed by `Mac::new_from_slice`, fed by
/// `Mac::update` and read out by `Mac::finalize`.  The contract names the
/// tag, which has 32 bytes.  HMAC takes a key of any length, so keying
/// does not fail.
#[verifier::external_body]
fn sha256_mac(key: &[u8], input: &[u8]) -> (out: Vec<u8>)
    ensures
        out@ == hmac_sha256(key@, input@),
        out@.len() == 32,
{
    let mut mac = Hmac::<sha2::Sha256>::new_from_slice(key).expect("HMAC takes a key of any length");
    mac.update(input);
    mac.finalize().into_bytes().to_vec()
}

/// The SHA-512/256 digest of `data`, as `sha2::Sha512_256` computes it.
pub uninterp spec fn sha512_256(data: Seq<u8>) -> Seq<u8>;

/// The HMAC of `input` under `key` with SHA-512/256, as `hmac::Hmac<sha2::Sha512_256>`
/// computes it.
pub uninterp spec fn hmac_sha512_256(key: Seq<u8>, input: Seq<u8>) -> Seq<u8>;

/// Trusted: `Digest::digest` of `sha2::Sha512_256`.  The contract names the
/// digest, which has 32 bytes.
#[verifier::external_body]
fn sha512_256_digest(data: &[u8]) -> (out: Vec<u8>)
    ensures
        out@ == sha512_256(data@),
        out@.len() == 32,
{
    sha2::Sha512_256::digest(data).to_vec()
}

/// Trusted: `hmac::Hmac<sha2::Sha512_256>`, keyed by `Mac::new_from_slice`, fed by
/// `Mac::update` and read out by `Mac::finalize`.  The contract names the
/// tag, which has 32 bytes.  HMAC takes a key of any length, so keying
/// does not fail.
#[verifier::external_body]
fn sha512_256_mac(key: &[u8], input: &[u8]) -> (out: Vec<u8>)
    ensures
        out@ == hmac_sha512_256(key@, input@),
        out@.len() == 32,
{
    let mut mac = Hmac::<sha2::Sha512_256>::new_from_slice(key).expect("HMAC takes a key of any length");
    mac.update(input);
    mac.finalize().into_bytes().to_vec()
}

/// The SHA-384 digest of `data`, as `sha2::Sha384` computes it.
pub uninterp spec fn sha384(data: Seq<u8>) -> Seq<u8>;

/// The HMAC of `input` under `key` with SHA-384, as `hmac::Hmac<sha2::Sha384>`
/// computes it.
pub uninterp spec fn hmac_sha384(key: Seq<u8>, input: Seq<u8>) -> Seq<u8>;

/// Trusted: `Digest::digest` of `sha2::Sha384`.  The contract names the
/// digest, which has 48 bytes.
#[verifier::external_body]
fn sha384_digest(data: &[u8]) -> (out: Vec<u8>)
    ensures
        out@ == sha384(data@),
        out@.len() == 48,
{
    sha2::Sha384::digest(data).to_vec()
}

/// Trusted: `hmac::Hmac<sha2::Sha384>`, keyed by `Mac::new_from_slice`, fed by
/// `Mac::update` and read out by `Mac::finalize`.  The contract names the
/// tag, which has 48 bytes.  HMAC takes a key of any length, so keying
/// does not fail.
#[verifier::external_body]
fn sha384_mac(key: &[u8], input: &[u8]) -> (out: Vec<u8>)
    ensures
        out@ == hmac_sha384(key@, input@),
        out@.len() == 48,
{
    let mut mac = Hmac::<sha2::Sha384>::new_from_slice(key).expect("HMAC takes a key of any length");
    mac.update(input);
    mac.finalize().into_bytes().to_vec()
}

/// The SHA-512 digest of `data`, as `sha2::Sha512` computes it.
pub uninterp spec fn sha512(data: Seq<u8>) -> Seq<u8>;

/// The HMAC of `input` under `key` with SHA-512, as `hmac::Hmac<sha2::Sha512>`
/// computes it.
pub uninterp spec fn hmac_sha512(key: Seq<u8>, input: Seq<u8>) -> Seq<u8>;

/// Trusted: `Digest::digest` of `sha2::Sha512`.  The contract names the
/// digest, which has 64 bytes.
#[verifier::external_body]
fn sha512_digest(data: &[u8]) -> (out: Vec<u8>)
    ensures
        out@ == sha512(data@),
        out@.len() == 64,
{
    sha2::Sha512::digest(data).to_vec()
}

/// Trusted: `hmac::Hmac<sha2::Sha512>`, keyed by `Mac::new_from_slice`, fed by
/// `Mac::update` and read out by `Mac::finalize`.  The contract names the
/// tag, which has 64 bytes.  HMAC takes a key of any length, so keying
/// does not fail.
#[verifier::external_body]
fn sha512_mac(key: &[u8], input: &[u8]) -> (out: Vec<u8>)
    ensures
        out@ == hmac_sha512(key@, input@),
        out@.len() == 64,
{
    let mut mac = Hmac::<sha2::Sha512>::new_from_slice(key).expect("HMAC takes a key of any length");
    mac.update(input);
    mac.finalize().into_bytes().to_vec()
}

/// SHA-224.
pub struct Sha224;

impl HashFn for Sha224 {
    const BLOCK_LEN: usize = 28;

    const SEED_LEN: usize = 55;

    const SECURITY_STRENGTH: usize = 28;

    const MAX_RESEED_INTERVAL: u64 = 0x1_0000_0000_0000;

    open spec fn spec_hash(data: Seq<u8>) -> Seq<u8> {
        sha224(data)
    }

    open spec fn spec_hmac(key: Seq<u8>, input: Seq<u8>) -> Seq<u8> {
        hmac_sha224(key, input)
    }

    proof fn lemma_dimensions()
        ensures
            Self::BLOCK_LEN == 28,
            Self::SEED_LEN == 55,
            Self::SECURITY_STRENGTH == 28,
    {
        assert(Self::BLOCK_LEN == 28 && Self::SEED_LEN == 55);
        assert(Self::SECURITY_STRENGTH == 28);
        assert(Self::MAX_RESEED_INTERVAL == 0x1_0000_0000_0000);
    }

    fn hash(data: &[u8]) -> (out: Vec<u8>) {
        sha224_digest(data)
    }

    fn hmac(key: &[u8], input: &[u8]) -> (out: Vec<u8>) {
        sha224_mac(key, input)
    }
}

/// SHA-512/224.
#[allow(non_camel_case_types)]
pub struct Sha512_224;

impl HashFn for Sha512_224 {
    const BLOCK_LEN: usize = 28;

    const SEED_LEN: usize = 55;

    const SECURITY_STRENGTH: usize = 28;

    const MAX_RESEED_INTERVAL: u64 = 0x1_0000_0000_0000;

    open spec fn spec_hash(data: Seq<u8>) -> Seq<u8> {
        sha512_224(data)
    }

    open spec fn spec_hmac(key: Seq<u8>, input: Seq<u8>) -> Seq<u8> {
        hmac_sha512_224(key, input)
    }

    proof fn lemma_dimensions()
        ensures
            Self::BLOCK_LEN == 28,
            Self::SEED_LEN == 55,
            Self::SECURITY_STRENGTH == 28,
    {
        assert(Self::BLOCK_LEN == 28 && Self::SEED_LEN == 55);
        assert(Self::SECURITY_STRENGTH == 28);
        assert(Self::MAX_RESEED_INTERVAL == 0x1_0000_0000_0000);
    }

    fn hash(data: &[u8]) -> (out: Vec<u8>) {
        sha512_224_digest(data)
    }

    fn hmac(key: &[u8], input: &[u8]) -> (out: Vec<u8>) {
        sha512_224_mac(key, input)
    }
}

/// SHA-256.
pub struct Sha256;

impl HashFn for Sha256 {
    const BLOCK_LEN: usize = 32;

    const SEED_LEN: usize = 55;

    const SECURITY_STRENGTH: usize = 32;

    const MAX_RESEED_INTERVAL: u64 = 0x1_0000_0000_0000;

    open spec fn spec_hash(data: Seq<u8>) -> Seq<u8> {
        sha256(data)
    }

    open spec fn spec_hmac(key: Seq<u8>, input: Seq<u8>) -> Seq<u8> {
        hmac_sha256(key, input)
    }

    proof fn lemma_dimensions()
        ensures
            Self::BLOCK_LEN == 32,
            Self::SEED_LEN == 55,
            Self::SECURITY_STRENGTH == 32,
    {
        assert(Self::BLOCK_LEN == 32 && Self::SEED_LEN == 55);
        assert(Self::SECURITY_STRENGTH == 32);
        assert(Self::MAX_RESEED_INTERVAL == 0x1_0000_0000_0000);
    }

    fn hash(data: &[u8]) -> (out: Vec<u8>) {
        sha256_digest(data)
    }

    fn hmac(key: &[u8], input: &[u8]) -> (out: Vec<u8>) {
        sha256_mac(key, input)
    }
}

/// SHA-512/256.
#[allow(non_camel_case_types)]
pub struct Sha512_256;

impl HashFn for Sha512_256 {
    const BLOCK_LEN: usize = 32;

    const SEED_LEN: usize = 55;

    const SECURITY_STRENGTH: usize = 32;

    const MAX_RESEED_INTERVAL: u64 = 0x1_0000_0000_0000;

    open spec fn spec_hash(data: Seq<u8>) -> Seq<u8> {
        sha512_256(data)
    }

    open spec fn spec_hmac(key: Seq<u8>, input: Seq<u8>) -> Seq<u8> {
        hmac_sha512_256(key, input)
    }

    proof fn lemma_dimensions()
        ensures
            Self::BLOCK_LEN == 32,
            Self::SEED_LEN == 55,
            Self::SECURITY_STRENGTH == 32,
    {
        assert(Self::BLOCK_LEN == 32 && Self::SEED_LEN == 55);
        assert(Self::SECURITY_STRENGTH == 32);
        assert(Self::MAX_RESEED_INTERVAL == 0x1_0000_0000_0000);
    }

    fn hash(data: &[u8]) -> (out: Vec<u8>) {
        sha512_256_digest(data)
    }

    fn hmac(key: &[u8], input: &[u8]) -> (out: Vec<u8>) {
        sha512_256_mac(key, input)
    }
}

/// SHA-384.
pub struct Sha384;

impl HashFn for Sha384 {
    const BLOCK_LEN: usize = 48;

    const SEED_LEN: usize = 111;

    const SECURITY_STRENGTH: usize = 32;

    const MAX_RESEED_INTERVAL: u64 = 0x1_0000_0000_0000;

    open spec fn spec_hash(data: Seq<u8>) -> Seq<u8> {
        sha384(data)
    }

    open spec fn spec_hmac(key: Seq<u8>, input: Seq<u8>) -> Seq<u8> {
        hmac_sha384(key, input)
    }

    proof fn lemma_dimensions()
        ensures
            Self::BLOCK_LEN == 48,
            Self::SEED_LEN == 111,
            Self::SECURITY_STRENGTH == 32,
    {
        assert(Self::BLOCK_LEN == 48 && Self::SEED_LEN == 111);
        assert(Self::SECURITY_STRENGTH == 32);
        assert(Self::MAX_RESEED_INTERVAL == 0x1_0000_0000_0000);
    }

    fn hash(data: &[u8]) -> (out: Vec<u8>) {
        sha384_digest(data)
    }

    fn hmac(key: &[u8], input: &[u8]) -> (out: Vec<u8>) {
        sha384_mac(key, input)
    }
}

/// SHA-512.
pub struct Sha512;

impl HashFn for Sha512 {
    const BLOCK_LEN: usize = 64;

    const SEED_LEN: usize = 111;

    const SECURITY_STRENGTH: usize = 32;

    const MAX_RESEED_INTERVAL: u64 = 0x1_0000_0000_0000;

    open spec fn spec_hash(data: Seq<u8>) -> Seq<u8> {
        sha512(data)
    }

    open spec fn spec_hmac(key: Seq<u8>, input: Seq<u8>) -> Seq<u8> {
        hmac_sha512(key, input)
    }

    proof fn lemma_dimensions()
        ensures
            Self::BLOCK_LEN == 64,
            Self::SEED_LEN == 111,
            Self::SECURITY_STRENGTH == 32,
    {
        assert(Self::BLOCK_LEN == 64 && Self::SEED_LEN == 111);
        assert(Self::SECURITY_STRENGTH == 32);
        assert(Self::MAX_RESEED_INTERVAL == 0x1_0000_0000_0000);
    }

    fn hash(data: &[u8]) -> (out: Vec<u8>) {
        sha512_digest(data)
    }

    fn hmac(key: &[u8], input: &[u8]) -> (out: Vec<u8>) {
        sha512_mac(key, input)
    }
}

} // verus!

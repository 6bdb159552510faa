//! The generators built on a hash function: Hash_DRBG and HMAC_DRBG.

pub mod hash;
pub mod hashfn;
pub mod hmac;

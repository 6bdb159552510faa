// The primitives under the generators, each against a known answer: AES on
// the example vectors of FIPS 197, the SHA-2 functions on "abc", and HMAC on
// a fixed key and message.

use kondrbg::ctr::cipher::{Aes128, Aes192, Aes256, Cipher};
use kondrbg::hash_based::hashfn::{HashFn, Sha224, Sha256, Sha384, Sha512, Sha512_224, Sha512_256};

fn fips197_block() -> Vec<u8> {
    hex::decode("00112233445566778899aabbccddeeff").unwrap()
}

fn counting_key(len: u8) -> Vec<u8> {
    (0..len).collect()
}

#[test]
fn aes128_encrypts_the_fips_197_example() {
    let cipher = Aes128::new(&counting_key(16));
    let out = cipher.block_encrypt_b2b(&fips197_block());
    assert_eq!(hex::encode(&out), "69c4e0d86a7b0430d8cdb78070b4c55a");

    let mut in_place = fips197_block();
    cipher.block_encrypt(&mut in_place);
    assert_eq!(in_place, out);
    assert_ne!(in_place, fips197_block());
}

#[test]
fn aes192_encrypts_the_fips_197_example() {
    let cipher = Aes192::new(&counting_key(24));
    let out = cipher.block_encrypt_b2b(&fips197_block());
    assert_eq!(hex::encode(&out), "dda97ca4864cdfe06eaf70a0ec0d7191");

    let mut in_place = fips197_block();
    cipher.block_encrypt(&mut in_place);
    assert_eq!(in_place, out);
    assert_ne!(in_place, fips197_block());
}

#[test]
fn aes256_encrypts_the_fips_197_example() {
    let cipher = Aes256::new(&counting_key(32));
    let out = cipher.block_encrypt_b2b(&fips197_block());
    assert_eq!(hex::encode(&out), "8ea2b7ca516745bfeafc49904b496089");

    let mut in_place = fips197_block();
    cipher.block_encrypt(&mut in_place);
    assert_eq!(in_place, out);
    assert_ne!(in_place, fips197_block());
}

#[test]
fn cipher_dimensions() {
    assert_eq!((Aes128::BLOCK_LEN, Aes128::KEY_LEN, Aes128::SEED_LEN), (16, 16, 32));
    assert_eq!((Aes192::BLOCK_LEN, Aes192::KEY_LEN, Aes192::SEED_LEN), (16, 24, 40));
    assert_eq!((Aes256::BLOCK_LEN, Aes256::KEY_LEN, Aes256::SEED_LEN), (16, 32, 48));
    assert_eq!(Aes128::SECURITY_STRENGTH, 16);
    assert_eq!(Aes192::SECURITY_STRENGTH, 24);
    assert_eq!(Aes256::SECURITY_STRENGTH, 32);
    assert_eq!(Aes256::MAX_NUMBER_OF_BYTES_PER_REQUEST, 1 << 16);
    assert_eq!(Aes256::MAX_RESEED_INTERVAL, 1 << 48);
}

#[test]
fn seed_splits_into_key_and_block() {
    let seed: Vec<u8> = (0u8..40).collect();
    let (key, block) = Aes192::seed_to_key_block(&seed);
    assert_eq!(key, (0u8..24).collect::<Vec<u8>>());
    assert_eq!(block, (24u8..40).collect::<Vec<u8>>());
}

#[test]
fn sha224_digest_and_hmac() {
    assert_eq!(hex::encode(Sha224::hash(b"abc")), "23097d223405d8228642a477bda255b32aadbce4bda0b3f7e36c9da7");
    assert_eq!(hex::encode(Sha224::hash(b"")), "d14a028c2a3a2bc9476102bb288234c415a2b01f828ea62ac5b3e42f");
    let key: Vec<u8> = (1u8..21).collect();
    let message = b"Sample message for the keyed digest";
    assert_eq!(hex::encode(Sha224::hmac(&key, message)), "cc6153c83c5ca76b0cbb162f996e3232fb6f15181778dae606d7be06");
    let long_key = [0xaau8; 131];
    assert_eq!(hex::encode(Sha224::hmac(&long_key, message)), "7410dc2f23fe340e5deb06471c52a1c1c601b06fc072bf45bc81b5e1");
}

#[test]
fn sha256_digest_and_hmac() {
    assert_eq!(hex::encode(Sha256::hash(b"abc")), "ba7816bf8f01cfea414140de5dae2223b00361a396177a9cb410ff61f20015ad");
    assert_eq!(hex::encode(Sha256::hash(b"")), "e3b0c44298fc1c149afbf4c8996fb92427ae41e4649b934ca495991b7852b855");
    let key: Vec<u8> = (1u8..21).collect();
    let message = b"Sample message for the keyed digest";
    assert_eq!(hex::encode(Sha256::hmac(&key, message)), "1c2530d9f6c277cd698aadf5d8dae7d08322888d3b51379062114a3084638a40");
    let long_key = [0xaau8; 131];
    assert_eq!(hex::encode(Sha256::hmac(&long_key, message)), "492395ea163526dc0b358eb758100b182b5be7336374a5a34f4116a83b8f4985");
}

#[test]
fn sha384_digest_and_hmac() {
    assert_eq!(hex::encode(Sha384::hash(b"abc")), "cb00753f45a35e8bb5a03d699ac65007272c32ab0eded1631a8b605a43ff5bed8086072ba1e7cc2358baeca134c825a7");
    assert_eq!(hex::encode(Sha384::hash(b"")), "38b060a751ac96384cd9327eb1b1e36a21fdb71114be07434c0cc7bf63f6e1da274edebfe76f65fbd51ad2f14898b95b");
    let key: Vec<u8> = (1u8..21).collect();
    let message = b"Sample message for the keyed digest";
    assert_eq!(hex::encode(Sha384::hmac(&key, message)), "af43d50f563fff78d00df2ec32273bdba63d26aa6f28d5297999747c2e3cd0126abddf5d06b2cc60403ba9ae5e3bd8e3");
    let long_key = [0xaau8; 131];
    assert_eq!(hex::encode(Sha384::hmac(&long_key, message)), "a88b51453cfbc60ebbf5a99bcb14850cf36f50a1d528763b67cecbca39650d5e306bc7fa901027637e5b946f5006ef69");
}

#[test]
fn sha512_digest_and_hmac() {
    assert_eq!(hex::encode(Sha512::hash(b"abc")), "ddaf35a193617abacc417349ae20413112e6fa4e89a97ea20a9eeee64b55d39a2192992a274fc1a836ba3c23a3feebbd454d4423643ce80e2a9ac94fa54ca49f");
    assert_eq!(hex::encode(Sha512::hash(b"")), "cf83e1357eefb8bdf1542850d66d8007d620e4050b5715dc83f4a921d36ce9ce47d0d13c5d85f2b0ff8318d2877eec2f63b931bd47417a81a538327af927da3e");
    let key: Vec<u8> = (1u8..21).collect();
    let message = b"Sample message for the keyed digest";
    assert_eq!(hex::encode(Sha512::hmac(&key, message)), "437be323abb069d45f8f6bf6fa250dcd3bd4fef2cec08c7761f292910939d276112ee74404d0946745d0a125a403d37d9b2d5a89d95423046df16783ffe6a734");
    let long_key = [0xaau8; 131];
    assert_eq!(hex::encode(Sha512::hmac(&long_key, message)), "a568a904a54532eb93b8bfa718d5f1e3cacd7e9cf17be719bdd3a3488e89e37c6958a7f7d97452c6c71db2c51caaf308dcaec778d5e2acd04c9bfdcfec899d53");
}

#[test]
fn sha512_224_digest_and_hmac() {
    assert_eq!(hex::encode(Sha512_224::hash(b"abc")), "4634270f707b6a54daae7530460842e20e37ed265ceee9a43e8924aa");
    assert_eq!(hex::encode(Sha512_224::hash(b"")), "6ed0dd02806fa89e25de060c19d3ac86cabb87d6a0ddd05c333b84f4");
    let key: Vec<u8> = (1u8..21).collect();
    let message = b"Sample message for the keyed digest";
    assert_eq!(hex::encode(Sha512_224::hmac(&key, message)), "f5cb4e75859416442f2b5f4956c65392cda954502a654469e52b7b23");
    let long_key = [0xaau8; 131];
    assert_eq!(hex::encode(Sha512_224::hmac(&long_key, message)), "61223c283340fb9f1ccdf10001feb24978595040d9cbb8b1d845839b");
}

#[test]
fn sha512_256_digest_and_hmac() {
    assert_eq!(hex::encode(Sha512_256::hash(b"abc")), "53048e2681941ef99b2e29b76b4c7dabe4c2d0c634fc6d46e0e2f13107e7af23");
    assert_eq!(hex::encode(Sha512_256::hash(b"")), "c672b8d1ef56ed28ab87c3622c5114069bdd3ad7b8f9737498d0c01ecef0967a");
    let key: Vec<u8> = (1u8..21).collect();
    let message = b"Sample message for the keyed digest";
    assert_eq!(hex::encode(Sha512_256::hmac(&key, message)), "bd0aa6001601a073e62aacaeca77a0defbf88fc5d706a4f54277088e05b81c37");
    let long_key = [0xaau8; 131];
    assert_eq!(hex::encode(Sha512_256::hmac(&long_key, message)), "7777b46171a89027ba8ab5aba812b143ab73ccb01a9807ba1a17ea1a5c782254");
}

#[test]
fn hash_dimensions() {
    assert_eq!((Sha224::BLOCK_LEN, Sha224::SEED_LEN, Sha224::SECURITY_STRENGTH), (28, 55, 28));
    assert_eq!((Sha512_224::BLOCK_LEN, Sha512_224::SEED_LEN, Sha512_224::SECURITY_STRENGTH), (28, 55, 28));
    assert_eq!((Sha256::BLOCK_LEN, Sha256::SEED_LEN, Sha256::SECURITY_STRENGTH), (32, 55, 32));
    assert_eq!((Sha512_256::BLOCK_LEN, Sha512_256::SEED_LEN, Sha512_256::SECURITY_STRENGTH), (32, 55, 32));
    assert_eq!((Sha384::BLOCK_LEN, Sha384::SEED_LEN, Sha384::SECURITY_STRENGTH), (48, 111, 32));
    assert_eq!((Sha512::BLOCK_LEN, Sha512::SEED_LEN, Sha512::SECURITY_STRENGTH), (64, 111, 32));
    assert_eq!(Sha512::MAX_RESEED_INTERVAL, 1 << 48);
}

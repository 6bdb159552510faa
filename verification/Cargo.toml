[package]
name = "kondrbg"
version = "0.1.0"
edition = "2021"
publish = false

[dependencies]
aes = "=0.8.4"
hmac = "=0.12.1"
sha2 = { version = "=0.10.9", features = ["force-soft"] }
rand_core = { version = "=0.9.5", features = ["os_rng"] }

[dev-dependencies]
hex = "=0.4.3"
special-fun = "=0.3.1"

[package]
name = "dnscrypt_relay"
version = "0.1.0"
edition = "2021"
publish = false

[dependencies]
byteorder = "1"
educe = "*"
ipext = "*"
libsodium-sys-stable = "*"
serde = { version = "1", features = ["derive"] }
serde_derive = "1"
sieve-cache = "*"
siphasher = "*"
slabigator = "*"
tokio = { version = "1", features = ["sync", "rt", "rt-multi-thread", "net", "io-util", "time"] }
toml = "*"

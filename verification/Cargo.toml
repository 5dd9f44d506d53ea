[package]
name = "passnag"
version = "0.1.0"
edition = "2021"
publish = false

[dependencies]
argon2 = "0.5"
etcetera = "*"
libc = "0.2"
rand_core = { version = "0.6", features = ["getrandom"] }
serde = { version = "1", features = ["derive"] }
stdont = "*"
toml = "0.8"
zeroize = "1"

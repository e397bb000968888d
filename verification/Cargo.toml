[package]
name = "nopass"
version = "0.1.0"
edition = "2021"
publish = false

[dependencies]
aes-gcm = "0.10"
argon2 = "0.5"
bincode = "2"
copypasta = "0.10"
log = "0.4"
once_cell = "1"
rfd = "0.15"
serde = { version = "1", features = ["derive"] }
subtle = "2"
thiserror = "1"
tokio = { version = "1", features = ["rt-multi-thread", "macros"] }
zeroize = "1"

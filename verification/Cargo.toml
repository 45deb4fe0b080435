[package]
name = "dopbase"
version = "0.1.5"
edition = "2021"
publish = false

[dependencies]
chacha20poly1305 = "0.10"
hkdf = "0.12"
sha2 = "0.10"
getrandom = "0.3"
url = "2"
chrono = { version = "0.4", default-features = false, features = ["std", "clock"] }
serde = { version = "1", features = ["derive"] }
serde_json = "1"
clap = { version = "4", features = ["derive"] }
anyhow = "1"
anstream = "0.6"
anstyle = "1"
zeroize = "1"
hex = "0.4"
rpassword = "7"

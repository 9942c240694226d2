[package]
name = "zpass"
version = "0.1.0"
edition = "2021"
publish = false

[dependencies]
aes = "0.6"
block-modes = "0.7"
rand = "0.7"
sha3 = "0.9"
serde = { version = "1", features = ["derive"] }
serde_json = "1"
pom = "3"
clipboard = "0.5"
rpassword = "5"

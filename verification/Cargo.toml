[package]
name = "lock_smith"
version = "0.1.0"
edition = "2021"
publish = false

[dependencies]
aes-gcm = "0.10"
anyhow = "1"
arboard = { version = "3", default-features = false }
argon2 = "0.5"
chrono = { version = "0.4", features = ["serde"] }
clap = { version = "4", features = ["derive"] }
rand = "0.9"
rpassword = "7"
secrecy = { version = "0.10", features = ["serde"] }
serde = { version = "1", features = ["derive"] }
serde_json = "1"
tabled = "*"
tokio = { version = "1", features = ["fs", "macros", "rt-multi-thread", "sync"] }

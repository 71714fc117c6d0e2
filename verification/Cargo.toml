[package]
name = "sura"
version = "0.1.0"
edition = "2021"
publish = false

[dependencies]
anyhow = "=1.0.104"
libc = "=0.2.190"
nix = { version = "=0.31.3", features = ["fs", "process", "term"] }
serde = { version = "=1.0.229", features = ["derive"] }
serde_json = "=1.0.151"
shellexpand = "=3.1.2"
tokio = { version = "=1.53.2", features = ["rt-multi-thread", "macros", "io-util", "io-std", "sync", "fs"] }

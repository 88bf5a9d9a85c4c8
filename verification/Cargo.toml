[package]
name = "ina"
version = "0.1.0"
edition = "2021"
publish = false

[dependencies]
anyhow = "=1.0.104"
argon2 = "=0.5.3"
async-trait = "=0.1.92"
chacha20poly1305 = "=0.10.1"
clap = { version = "=4.6.7", features = ["derive"] }
flate2 = "=1.1.10"
owo-colors = { version = "=4.4.0", features = ["supports-colors"] }
proc-macro2 = "=1.0.107"
quote = "=1.0.47"
serde = { version = "=1.0.229", features = ["derive"] }
syn = { version = "=2.0.119", features = ["full"] }
thiserror = "=2.0.21"
time = { version = "=0.3.55", features = ["formatting", "local-offset", "macros"] }
tokio = { version = "=1.54.1", features = ["full"] }
toml = "=0.8.23"
tracing = "=0.1.44"
zeroize = "=1.9.1"

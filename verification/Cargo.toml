[package]
name = "iroh_proxy"
version = "0.1.0"
edition = "2021"
publish = false

[dependencies]
anyhow = "=1.0.104"
async-executor = "=1.14.1"
futures = "=0.3.34"
iroh = { version = "=1.4.1", default-features = false, features = ["tls-ring"] }
iroh-tickets = "=1.0.0"
noq-proto = "=1.4.0"
reqwest = { version = "=0.13.5", default-features = false, features = ["rustls-no-provider"] }
rustls = { version = "=0.23.46", default-features = false, features = ["ring", "std"] }
serde = { version = "=1.0.229", features = ["derive"] }
socket2 = { version = "=0.6.5", features = ["all"] }
stun = "=0.17.2"
tokio = { version = "=1.54.1", features = ["rt", "macros", "net", "time", "io-util", "signal", "sync"] }

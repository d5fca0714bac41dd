[package]
name = "arb_engine"
version = "0.1.0"
edition = "2021"
publish = false

[dependencies]
rust_decimal = "1"
chrono = "0.4"
serde = { version = "1", features = ["derive"] }
serde_json = "1"
tokio = { version = "1", features = ["full"] }
tokio-tungstenite = "*"
futures-util = "0.3"
reqwest = { version = "0.12", default-features = false, features = ["json", "rustls-tls"] }
ethers = { version = "2", default-features = false }
anyhow = "1"
dotenv = "0.15"
tracing = "0.1"
tracing-subscriber = "0.3"

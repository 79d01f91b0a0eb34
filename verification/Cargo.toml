[package]
name = "pahoa"
version = "0.1.0"
edition = "2021"
publish = false

[dependencies]
num-bigint = "0.4"
num-traits = "0.2"
serde_json = { version = "1", features = ["arbitrary_precision", "preserve_order"] }
flate2 = "1"
serde = { version = "1", features = ["derive"] }
thiserror = "2"
bytes = "1"
tracing = "0.1"
tokio = { version = "1", features = ["full"] }
tokio-rustls = { version = "0.26", default-features = false, features = ["ring", "tls12", "logging"] }
rustls = { version = "0.23", default-features = false, features = ["ring", "std", "tls12", "logging"] }
rustls-pemfile = "2"

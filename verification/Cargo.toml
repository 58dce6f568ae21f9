[package]
name = "tracer"
version = "0.1.0"
edition = "2021"
publish = false

[dependencies]
anyhow = "1"
clap = "4"
crossbeam = "0.8"
ctrlc = "3"
futures = "0.3"
hyper = { version = "0.14", features = ["client", "http1", "tcp"] }
hyper-rustls = "0.24"
rustls = "0.21"
serde = { version = "1", features = ["derive"] }
sha2 = "0.10"
tokio = { version = "1", features = ["rt-multi-thread", "net", "macros", "time"] }
tokio-rustls = "0.24"
toml = "0.8"
webpki-roots = "0.25"

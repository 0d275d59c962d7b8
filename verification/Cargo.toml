[package]
name = "venturi"
version = "0.1.0"
edition = "2021"
publish = false

[dependencies]
async-trait = "0.1"
chrono = "0.4"
deadpool-postgres = "0.14"
futures-util = "0.3"
metrics = "0.24"
refinery-core = { version = "*", default-features = false }
rustls = { version = "0.23", default-features = false, features = ["std"] }
serde = { version = "1", features = ["derive"] }
serde_json = "1"
thiserror = "2"
time = { version = "0.3", features = ["parsing"] }
tokio = { version = "1", features = ["macros", "rt-multi-thread", "signal", "sync", "time"] }
tokio-postgres = { version = "0.7", features = ["with-chrono-0_4", "with-serde_json-1"] }
tokio-postgres-rustls = { version = "0.13", default-features = false }
tokio-util = "0.7"
tracing = "0.1"
ulid = "1"

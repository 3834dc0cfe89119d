[package]
name = "recsync"
version = "0.1.0"
edition = "2021"
publish = false

[dependencies]
bytes = "1"
tokio = { version = "1", features = ["net", "time", "rt-multi-thread", "macros", "sync", "io-util"] }
tokio-util = { version = "0.7", features = ["codec"] }
futures-util = { version = "0.3", features = ["sink"] }
tracing = "0.1"
tracing-subscriber = "0.3"
async-trait = "0.1"
reqwest = { version = "0.12", default-features = false, features = ["json"] }
serde = { version = "1", features = ["derive"] }
chrono = "0.4"
rust-ini = "0.21"
thiserror = "2"
sqlx = { version = "0.8", default-features = false, features = ["sqlite", "runtime-tokio"] }

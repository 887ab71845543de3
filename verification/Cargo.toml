[package]
name = "foliage"
version = "0.1.0"
edition = "2021"
publish = false

[dependencies]
bytes = "1"
bincode = "1.3"
serde = { version = "1", features = ["derive"] }
sha3 = "0.10"
hex = "0.4"
tokio = { version = "1", features = ["net", "sync", "rt", "rt-multi-thread", "macros", "io-util"] }
tokio-util = { version = "0.7", features = ["codec"] }
futures = "0.3"
thiserror = "1"
convert_case = "0.6"
syn = { version = "2", features = ["full"] }
quote = "1"
darling = "0.20"

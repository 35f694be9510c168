[package]
name = "ql_provision"
version = "0.1.0"
edition = "2021"
publish = false

[dependencies]
chrono = "0.4"
clap = "4"
colored = "*"
lzma-rs = "0.3"
regex = "1"
semver = "1"
serde = { version = "1", features = ["derive"] }
serde_json = "1"
terminal_size = "*"
thiserror = "*"
tokio = { version = "1", features = ["fs", "rt-multi-thread"] }
zip = { version = "2", default-features = false, features = ["deflate"] }

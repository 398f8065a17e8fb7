[package]
name = "compaction"
version = "0.1.0"
edition = "2021"
publish = false

[dependencies]
sha1 = "0.10"
tokio = { version = "1", features = ["process", "time"] }
futures = "0.3"

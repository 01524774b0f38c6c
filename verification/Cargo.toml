[package]
name = "indexer"
version = "0.1.0"
edition = "2021"
publish = false

[dependencies]
ahash = "*"
anyhow = "*"
diesel = { version = "*", default-features = false, features = ["postgres_backend"] }
diesel-async = { version = "*", features = ["postgres", "bb8"] }
futures-util = "*"
serde = { version = "*", features = ["derive"] }
tokio = { version = "*", features = ["rt-multi-thread", "macros"] }
tracing = "*"

[package]
name = "mailomat"
version = "0.1.0"
edition = "2021"
publish = false

[dependencies]
derive_more = { version = "=2.1.1", features = ["deref"] }
rand = "=0.8.8"
sqlx = { version = "=0.8.6", default-features = false, features = ["postgres", "runtime-tokio"] }
thiserror = "=1.0.69"
tokio = { version = "=1.54.1", features = ["net", "rt-multi-thread", "sync"] }
tracing = "=0.1.44"

[dev-dependencies]
base64 = "=0.22.1"

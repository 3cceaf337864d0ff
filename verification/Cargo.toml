[package]
name = "document_export"
version = "0.1.0"
edition = "2021"
publish = false

[dependencies]
axum = "=0.6.20"
bytes = "=1.12.1"
crc32fast = "=1.5.3"
flate2 = "=1.1.10"
hyper = { version = "=0.14.32", features = ["full"] }
sqlx = { version = "=0.7.4", features = ["sqlite", "runtime-tokio"] }
tokio = { version = "=1.54.1", features = ["full"] }
tokio-util = { version = "=0.7.20", features = ["io"] }
ulid = "=1.2.1"
zipit = { version = "=0.3.1", features = ["tokio-async-io", "chrono-datetime"] }

[dev-dependencies]
zip = { version = "=0.6.6", default-features = false, features = ["deflate"] }

[package]
name = "stream_schema"
version = "0.1.0"
edition = "2021"
publish = false

[dependencies]
anyhow = "1"
chrono = "0.4"
dashmap = "6"
datafusion = { version = "43", default-features = false }
hashbrown = "0.15"
log = "0.4"
serde_json = "1"

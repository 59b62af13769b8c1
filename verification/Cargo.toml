[package]
name = "swarmy-store"
version = "0.1.0"
edition = "2021"
publish = false

[dependencies]
anyhow = "=1.0.104"
async-trait = "=0.1.92"
aws-config = "=1.13.0"
aws-credential-types = "=1.3.1"
blake3 = "=1.8.7"
bytes = "=1.12.1"
chacha20poly1305 = "=0.10.1"
foundationdb = { version = "=0.11.0", features = ["fdb-7_3"] }
foundationdb-tuple = "=0.11.0"
futures = "=0.3.34"
jiff = { version = "=0.2.39", features = ["serde"] }
object_store = { version = "=0.14.2", features = ["aws"] }
postcard = { version = "1", features = ["use-std"] }
rand = "=0.9.5"
serde = { version = "=1.0.229", features = ["derive"] }
serde_json = "=1.0.154"
thiserror = "=2.0.21"
tokio = { version = "=1.54.1", features = ["full"] }
tracing = "=0.1.44"
tracing-subscriber = { version = "=0.3.23", features = ["env-filter"] }
ulid = { version = "=3.0.0", features = ["serde"] }

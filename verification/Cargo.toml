[package]
name = "key_prune"
version = "0.1.0"
edition = "2021"
publish = false

[dependencies]
async-trait = "=0.1.92"
datafusion = { version = "=55.2.0", default-features = false, features = ["parquet"] }
datafusion-common = { version = "=55.2.0", default-features = false }
datafusion-expr = { version = "=55.2.0", default-features = false }
humantime-serde = "=1.1.1"
raft-engine = { version = "=0.4.2", default-features = false }
rskafka = { version = "=0.6.0", default-features = false }
serde = { version = "=1.0.229", features = ["derive"] }
serde_json = "=1.0.154"
snafu = "=0.7.5"

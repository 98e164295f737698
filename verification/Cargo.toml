[package]
name = "veilid_iroh_blobs"
version = "0.1.0"
edition = "2021"
publish = false

[dependencies]
anyhow = "1"
bytes = "1"
serde_cbor = "0.11"
iroh-base = { version = "0.27", default-features = false, features = ["hash"] }
iroh-io = "0.6"
tokio = { version = "1", features = ["rt", "sync", "time", "macros"] }
tokio-stream = "0.1"

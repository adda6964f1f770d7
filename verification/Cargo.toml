[package]
name = "keal"
version = "0.1.0"
edition = "2021"
publish = false

[dependencies]
anyhow = "1"
bitflags = "2"
enum_dispatch = "0.3"
fork = "0.2"
fuzzy-matcher = "0.3"
indexmap = "2"
lazy_static = "1"
nucleo-matcher = "0.3"
serde = { version = "1", features = ["derive"] }
serde_cbor = "0.11"
smallvec = "1"
tini = "1"
walkdir = "2"

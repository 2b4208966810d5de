[package]
name = "qmdb_adapter"
version = "0.1.0"
edition = "2021"
publish = false

[dependencies]
alloy-primitives = "1"
parking_lot = "0.12"
revm = { version = "43", default-features = false }
thiserror = "2"

[package]
name = "fmpl_core"
version = "0.1.0"
edition = "2021"
publish = false

[dependencies]
blake3 = "=1.8.7"
rand = "=0.8.8"
tokio = { version = "1", default-features = false, features = ["sync", "rt"] }

[package]
name = "himalaya_lib"
version = "0.1.0"
edition = "2021"
publish = false

[dependencies]
mailparse = "0.14"
lettre = { version = "0.10", default-features = false, features = ["builder"] }
tree_magic = "0.2"
anyhow = "1"
thiserror = "1"
serde_json = "1"
axum = "0.6"
reqwest = { version = "0.11", default-features = false }
log = "0.4"
tracing = "0.1"

[package]
name = "signing-root-util"
version = "0.1.0"
edition = "2021"
publish = false

[dependencies]
anyhow = "1"
hex = "0.4"
primitive-types = { version = "0.12", features = ["serde"] }
serde = { version = "1", features = ["derive"] }
sha2 = "0.10"
thiserror = "1"

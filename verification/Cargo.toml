[package]
name = "tilepad-manifest"
version = "0.1.0"
edition = "2021"
publish = false

[dependencies]
garde = { version = "*", default-features = false, features = ["derive"] }
indexmap = { version = "2", features = ["serde"] }
node-semver = "2"
schemars = { version = "1", features = ["indexmap2"] }
serde = { version = "1", features = ["derive"] }
serde_json = "1"
serde_with = "3"
strum = { version = "*", features = ["derive"] }
thiserror = "2"

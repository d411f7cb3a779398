[package]
name = "freesasa_rs"
version = "0.1.0"
edition = "2021"
publish = false

[dependencies]
freesasa-sys = "*"
pdbtbx = "*"
serde = { version = "*", features = ["derive"] }
serde_json = "*"
serde_with = "*"

[package]
name = "media_index"
version = "0.1.0"
edition = "2021"
publish = false

[dependencies]
anyhow = "1"
diesel = { version = "1.4", features = ["sqlite"] }
log = "0.4"
regex = "1"

[package]
name = "precious"
version = "0.3.0"
edition = "2021"
publish = false

[dependencies]
anyhow = "1"
clap = { version = "3.2", features = ["derive"] }
fern = { version = "0.6", features = ["colored"] }
itertools = "0.9"
log = "0.4"
rayon = "1"
thiserror = "1"

[package]
name = "buncher"
version = "0.3.7"
edition = "2021"
publish = false

[dependencies]
sha3 = "0.10"
anyhow = "1"
clap = { version = "3", features = ["derive"] }
tokio = { version = "1", features = ["rt-multi-thread", "macros"] }
async-fs = "1"
futures = "0.3"
futures-lite = "1"
globwalk = "0.8"
image = { version = "0.24", default-features = false, features = ["jpeg", "png", "tiff", "webp"] }
indicatif = "0.17"

[package]
name = "rustweb"
version = "0.1.0"
edition = "2021"
publish = false

[dependencies]
clap = { version = "=4.6.7", features = ["derive"] }
mimalloc = { version = "=0.1.52", default-features = false }
rmp-serde = "=1.3.1"
rustc-hash = "=2.1.3"
rustdb = { version = "=5.2.115", features = ["serde"] }
tokio = { version = "=1.54.1", features = ["full"] }

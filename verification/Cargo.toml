[package]
name = "zex"
version = "0.1.0"
edition = "2021"
publish = false

[dependencies]
serde = { version = "1", features = ["derive"] }
serde_json = "1"
trash = "5"
libc = "0.2"
rayon = "1"
chrono = "0.4"
rustc-hash = "2"

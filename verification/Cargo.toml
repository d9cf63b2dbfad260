[package]
name = "oretachi"
version = "0.1.0"
edition = "2021"
publish = false

[dependencies]
subtle = "2"
serde = { version = "1", features = ["derive"] }
serde_json = "1"
tokio = { version = "1", features = ["rt-multi-thread", "time", "macros", "sync"] }
libc = "0.2"
log = "0.4"

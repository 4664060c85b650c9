[package]
name = "uc2_node"
version = "0.1.0"
edition = "2021"
publish = false

[dependencies]
clap = { version = "4.5", features = ["derive"] }
libc = "0.2"
rand = "0.9"
serde = { version = "1", features = ["derive"] }
signal-hook = "0.3"
thiserror = "2"
toml = "0.8"

[dev-dependencies]
tempfile = "3"

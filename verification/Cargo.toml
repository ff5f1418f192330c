[package]
name = "tccutil_rs"
version = "0.1.0"
edition = "2021"
publish = false

[dependencies]
chrono = "*"
clap = { version = "*", features = ["derive"] }
colored = "*"
dirs = "*"
libc = "*"
rusqlite = "*"
serde = { version = "*", features = ["derive"] }
sha1_smol = "*"

[dev-dependencies]
serde_json = "*"
tempfile = "*"

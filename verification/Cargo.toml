[package]
name = "launch"
version = "0.1.0"
edition = "2021"
publish = false

[dependencies]
anyhow = "*"
bytes = "*"
flate2 = "*"
libc = "*"
reqwest = { version = "*", default-features = false, features = ["json", "rustls-tls"] }
serde = { version = "*", features = ["derive"] }
tar = "*"
tempfile = "*"
tokio = { version = "*", features = ["macros", "rt-multi-thread"] }

[package]
name = "cx_terminal"
version = "0.1.0"
edition = "2021"
publish = false

[dependencies]
anyhow = "*"
chrono = "*"
clap = { version = "*", features = ["derive"] }
dirs-next = "*"
gethostname = "*"
libc = "*"
reqwest = { version = "*", default-features = false, features = ["blocking"] }
serde_json = "*"

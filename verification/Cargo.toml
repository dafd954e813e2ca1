[package]
name = "cloudflared_gui"
version = "1.0.4"
edition = "2021"
publish = false

[dependencies]
regex = "1.12"
dirs = "6"
open = "5"
ureq = "2.12"
serde = { version = "1", features = ["derive"] }

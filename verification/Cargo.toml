[package]
name = "live_ascii"
version = "0.1.0"
edition = "2021"
publish = false

[dependencies]
byteorder = "1.5"
serde = { version = "1.0", features = ["derive"] }
serde_json = "1.0"
clap = { version = "4.5", features = ["derive"] }
crossterm = "0.28"
glam = "0.29"
image = { version = "0.25", default-features = false, features = ["png"] }
libc = "0.2"
rand = "0.8"
ratatui = "0.29"

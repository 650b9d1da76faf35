[package]
name = "hostfetch"
version = "0.1.0"
edition = "2021"
publish = false

[dependencies]
colored = "2"
dirs = "5"
libc = "0.2"
owo-colors = "4"
serde = { version = "1", features = ["derive"] }
sysinfo = "0.31"
toml = "0.8"

[package]
name = "dl_api"
version = "0.4.0"
edition = "2021"
publish = false

[dependencies]
heck = "0.3"
lazy_static = "1"
libc = "0.2"
muon-rs = "*"
serde = { version = "1", features = ["derive"] }
winapi = { version = "0.3", features = ["errhandlingapi", "libloaderapi", "winerror", "minwindef"] }

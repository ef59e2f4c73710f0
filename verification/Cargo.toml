[package]
name = "rkbx_os2l"
version = "0.1.0"
edition = "2021"
publish = false

[dependencies]
serde_json = "1"
reqwest = { version = "*", default-features = false, features = ["blocking"] }
mdns-sd = "*"
toy-arms = "*"
winapi = { version = "0.3", features = ["winnt"] }

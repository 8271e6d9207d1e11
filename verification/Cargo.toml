[package]
name = "netstatus"
version = "0.1.0"
edition = "2021"
publish = false

[dependencies]
comrak = { version = "*", default-features = false }
clap = { version = "4", features = ["derive"] }
serde = { version = "1", features = ["derive"] }
serde_json = "1"
schemars = "1"
ureq = "3"
netdev = "*"
tokio = { version = "1", features = ["rt", "time"] }
surge-ping = "*"
ratatui = "*"
crossterm = "*"
core-foundation = "*"
system-configuration = "*"
libc = "0.2"
objc2-core-wlan = "*"

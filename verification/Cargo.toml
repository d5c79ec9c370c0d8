[package]
name = "laches"
version = "0.1.0"
edition = "2021"
publish = false

[dependencies]
auto-launch = "0.5"
chrono = "0.4"
clap = { version = "4", features = ["derive"] }
colored = "2"
dirs = "5"
regex = "1"
serde = { version = "1", features = ["derive"] }
serde_json = "1"
sysinfo = "0.30"
tabled = "0.15"
uuid = { version = "1", features = ["v4"] }

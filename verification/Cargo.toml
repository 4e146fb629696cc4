[package]
name = "rstop"
version = "0.1.0"
edition = "2021"
publish = false

[dependencies]
queue = "*"
sysinfo = "0.15"
termion = "1.5"
tui = { version = "0.16", default-features = false, features = ["termion"] }
tokio = { version = "1", features = ["macros", "rt-multi-thread"] }
futures = "0.3"

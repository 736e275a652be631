[package]
name = "zbus_lockstep"
version = "0.1.0"
edition = "2021"
publish = false

[dependencies]
zbus = { version = "3", features = ["xml"] }

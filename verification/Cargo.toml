[package]
name = "screen-dump"
version = "0.2.0"
edition = "2021"
publish = false

[dependencies]
libc = "0.2"
objc2-app-kit = "*"
objc2-application-services = "*"
objc2-core-foundation = "*"
objc2-core-graphics = "*"
screencapturekit = "*"
serde = { version = "1", features = ["derive"] }
serde_json = "1"
thiserror = "*"
usage = "*"

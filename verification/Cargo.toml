[package]
name = "webview_cli"
version = "0.2.0"
edition = "2021"
publish = false

[dependencies]
clap = { version = "4", features = ["derive"] }
tao = "*"
wry = "*"
objc2 = "*"
objc2-foundation = "*"
objc2-app-kit = "*"

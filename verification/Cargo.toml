[package]
name = "dui_core"
version = "0.1.0"
edition = "2021"
publish = false

[dependencies]
vello = { version = "0.1", default-features = false }
pollster = "0.3"
raw-window-handle = "0.6"
cocoa = "0.25"
objc = "0.2"

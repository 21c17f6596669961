[package]
name = "vxn1"
version = "0.1.0"
edition = "2021"
publish = false

[dependencies]
clack-extensions = { version = "=0.1.1", features = ["audio-ports", "clack-plugin", "gui", "note-ports", "params", "state", "timer"] }
clack-plugin = "=0.1.1"
objc = "=0.2.7"

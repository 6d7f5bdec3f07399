[package]
name = "js_debugger"
version = "0.1.0"
edition = "2021"
publish = false

[dependencies]
mozjs = "=0.10.1"

[package]
name = "ox"
version = "0.1.0"
edition = "2021"
publish = false

[dependencies]
crossterm = "=0.28.1"
kaolinite = "=0.9.5"
mlua = { version = "=0.10.5", features = ["lua54", "vendored"] }
synoptic = "=2.2.9"

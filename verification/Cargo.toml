[package]
name = "selected_text"
version = "0.1.0"
edition = "2021"
publish = false

[dependencies]
lru = "0.12"
parking_lot = "0.12"
active-win-pos-rs = "0.8"
accessibility-ng = "0.1"
accessibility-sys-ng = "0.1"
core-foundation = "0.9"
debug_print = "1.0"

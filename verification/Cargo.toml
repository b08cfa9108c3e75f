[package]
name = "sudoku"
version = "0.1.0"
edition = "2021"
publish = false

[dependencies]
yew = "0.19"
gloo-utils = "0.1"
log = "0.4"
wasm-logger = "0.2"

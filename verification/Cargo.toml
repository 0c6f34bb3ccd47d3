[package]
name = "wasm_rpc"
version = "0.1.0"
edition = "2021"
publish = false

[dependencies]
cbor-no-std = "*"
cask = "*"
wee_alloc = "*"

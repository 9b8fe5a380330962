[package]
name = "prize"
version = "0.1.0"
edition = "2021"
publish = false

[dependencies]
elrond-wasm = "0.30"
elrond-wasm-derive = "0.30"
elrond-wasm-node = "0.30"
variant_count = "1.1"

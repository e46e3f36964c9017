[package]
name = "wasm_lowering"
version = "0.1.0"
edition = "2021"
publish = false

[dependencies]
llvm-alt = "=0.5.0"
llvm-sys = "=0.4.0"
wasmparser = "=0.39.3"

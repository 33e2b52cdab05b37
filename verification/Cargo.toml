[package]
name = "llvm_ir"
version = "0.1.0"
edition = "2021"
publish = false

[dependencies]
either = "=1.19.0"
llvm-sys = { version = "=140.1.3", features = ["prefer-dynamic"] }

[package]
name = "omega"
version = "0.1.0"
edition = "2021"
publish = false

[dependencies]
cranelift = "0.126"
cranelift-module = "0.126"
cranelift-object = "0.126"
target-lexicon = "0.13"
inkwell = { version = "0.7", features = ["llvm18-1"] }

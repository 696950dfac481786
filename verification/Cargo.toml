[package]
name = "ulang"
version = "0.1.0"
edition = "2021"
publish = false

[dependencies]
annotate-snippets = "=0.12.17"
inkwell = { version = "=0.11.0", features = ["llvm14-0-prefer-dynamic"] }

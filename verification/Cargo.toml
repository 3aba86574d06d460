[package]
name = "noirc_blocks"
version = "0.1.0"
edition = "2021"
publish = false

[dependencies]
fxhash = "0.2.1"
rustc-hash = "1.1.0"

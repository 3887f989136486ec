[package]
name = "kclvm_runtime"
version = "0.1.0"
edition = "2021"
publish = false

[dependencies]
indexmap = "1"
clap = "2"
serde_json = "1"

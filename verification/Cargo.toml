[package]
name = "vhdl_policy"
version = "0.1.0"
edition = "2021"
publish = false

[dependencies]
regex = "=1.13.1"
serde = { version = "=1.0.229", features = ["derive"] }
serde_json = "=1.0.154"
datafrog = "=2.0.1"
timely = "=0.12.0"
differential-dataflow = "=0.12.0"
tree-sitter = "=0.24.7"
tree-sitter-language = "=0.1.9"

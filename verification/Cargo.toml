[package]
name = "silent_berry"
version = "0.1.0"
edition = "2021"
publish = false

[dependencies]
blake2b-ref = "*"
sparse-merkle-tree = { version = "*", features = ["blake2b"] }

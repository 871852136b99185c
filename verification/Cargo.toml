[package]
name = "spx"
version = "0.1.0"
edition = "2021"
publish = false

[dependencies]
blake3 = "=1.8.7"
dashmap = "=6.2.1"
memmap2 = "=0.9.12"
oxc = { version = "=0.143.0", features = ["transformer", "codegen", "semantic"] }
oxc_resolver = "=11.24.3"
rayon = "=1.12.0"
serde = { version = "=1.0.229", features = ["derive"] }
serde_json = "=1.0.154"
clap = { version = "=4.6.7", features = ["derive"] }
miette = "=7.6.0"
thiserror = "=2.0.21"

[package]
name = "pba_collator"
version = "0.1.0"
edition = "2021"
publish = false

[dependencies]
blake3 = "1"
parity-scale-codec = "3"
futures = "0.3"
log = "0.4"
clap = { version = "4", features = ["derive"] }

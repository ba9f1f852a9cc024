[package]
name = "allfeat_node"
version = "0.1.0"
edition = "2021"
publish = false

[dependencies]
sp-arithmetic = "*"
sp-weights = "*"
smallvec = "1"
clap = { version = "4", features = ["derive"] }
futures = "0.3"

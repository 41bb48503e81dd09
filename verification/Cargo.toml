[package]
name = "rtsim"
version = "0.1.0"
edition = "2021"
publish = false

[dependencies]
rand = "0.8"
rand_chacha = "0.3"
slotmap = "1.0"
hashbrown = "0.13"
serde = { version = "1.0", features = ["derive"] }
ron = "0.8"
atomicwrites = "0.4"
vek = "0.15"
tracing = "0.1"

[package]
name = "minecone"
version = "0.1.0"
edition = "2021"
publish = false

[dependencies]
bevy = { version = "0.11", default-features = false }
crossbeam = "=0.8.5"
noise = "=0.8.2"
num_cpus = "=1.17.0"
parking_lot = "=0.12.5"
rand = "=0.8.8"

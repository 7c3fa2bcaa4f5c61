[package]
name = "pot_head"
version = "0.1.0"
edition = "2021"
publish = false

[dependencies]
heapless = "=0.8.0"
num-traits = "=0.2.19"

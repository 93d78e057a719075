[package]
name = "tcpu"
version = "0.1.0"
edition = "2021"
publish = false

[dev-dependencies]
rand = "0.8"
rand_xoshiro = "0.6"
metrohash = "1"

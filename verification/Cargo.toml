[package]
name = "mcutie"
version = "0.1.0"
edition = "2021"
publish = false

[dependencies]
embassy-futures = "0.1"
embassy-net = { version = "0.6", features = ["dns", "medium-ethernet", "proto-ipv4", "tcp"] }
embassy-sync = "0.6"
embassy-time = "0.4"
embedded-io-async = "0.6"
heapless = "0.8"
mqttrs = { version = "0.4", default-features = false }

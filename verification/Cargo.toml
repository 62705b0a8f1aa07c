[package]
name = "agama_network"
version = "0.1.0"
edition = "2021"
publish = false

[dependencies]
async-std = "1.12"
futures = "0.3"
futures-util = "0.3"
log = "0.4"
zbus = "3"

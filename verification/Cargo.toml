[package]
name = "network_p2p"
version = "0.1.0"
edition = "2021"
publish = false

[dependencies]
alloy-consensus = { version = "*", default-features = false, features = ["std"] }
alloy-primitives = { version = "*", features = ["getrandom"] }
auto_impl = "1"
futures = "0.3"
futures-util = "0.3"
tracing = "0.1"

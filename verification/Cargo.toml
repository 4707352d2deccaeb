[package]
name = "fulcrum"
version = "0.1.0"
edition = "2021"
publish = false

[dependencies]
async-trait = "0.1"
bytes = "=0.5.6"
prost = "=0.6.1"
siphasher = "=0.3.11"
sled = "=0.34.7"
tokio = { version = "0.2", features = ["full"] }
tonic = "=0.2.1"
tracing = "0.1"
tracing-attributes = "0.1"
tracing-subscriber = "0.2"

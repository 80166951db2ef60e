[package]
name = "synapseflow_adapters"
version = "0.1.0"
edition = "2021"
publish = false

[dependencies]
sha2 = "0.10"
uuid = { version = "1", features = ["v4"] }
rusqlite = { version = "*", features = ["bundled"] }
candle-core = "*"
candle-nn = "*"
encoding_rs = "*"
llama-cpp-2 = "*"

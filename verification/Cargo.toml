[package]
name = "yellowstone_ingest"
version = "0.1.0"
edition = "2021"
publish = false

[dependencies]
anyhow = "*"
dotenv = "*"
futures = "*"
rustls = "*"
tokio = { version = "*", features = ["rt-multi-thread", "macros"] }
tonic = "*"
tracing = "*"
tracing-subscriber = "*"
yellowstone-grpc-client = "*"
yellowstone-grpc-proto = "*"

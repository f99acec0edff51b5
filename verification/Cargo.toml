[package]
name = "eventstore_tcp"
version = "0.1.0"
edition = "2021"
publish = false

[dependencies]
quick-protobuf = "=0.6.4"
byteorder = "=1.5.0"
uuid = { version = "=0.5.1", features = ["v4"] }
bytes = "=0.4.12"
tokio-io = "=0.1.13"
tokio-core = "=0.1.18"
tokio-proto = "=0.1.1"
tokio-service = "=0.1.0"
futures = "=0.1.31"
clap = "=2.34.0"
hex = "=0.3.2"
regex = "=1.13.1"
json = "*"

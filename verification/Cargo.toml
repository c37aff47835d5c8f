[package]
name = "resilience_core"
version = "0.1.0"
edition = "2021"
publish = false

[dependencies]
aws-smithy-checksums = "=0.65.0"
aws-smithy-runtime-api = "=1.19.0"
aws-smithy-types = { version = "=1.8.1", features = ["http-body-1-x"] }
aws-types = "=1.6.0"
http = "=1.5.0"
http-body = "=1.1.0"
bytes = "=1.12.1"

[dev-dependencies]
crc32fast = "=1.5.2"

[package]
name = "moraine"
version = "0.1.0"
edition = "2021"
publish = false

[dependencies]
uuid = { version = "=1.29.0", features = ["v4"] }
object_store = "=0.14.2"
slatedb = "=0.18.0"
tokio = { version = "=1.54.1", features = ["sync", "rt", "macros", "time"] }
futures = "=0.3.34"
prost = "=0.14.4"
tracing = "=0.1.44"

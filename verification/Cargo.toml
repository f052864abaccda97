[package]
name = "async_broadcast"
version = "0.4.0"
edition = "2021"
publish = false

[dependencies]
event-listener = "2.5.3"
futures-core = "0.3"

[dev-dependencies]
futures-lite = "1"

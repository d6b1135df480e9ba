[package]
name = "toy_core"
version = "0.1.0"
edition = "2021"
publish = false

[dependencies]
chrono = "0.4"
itoa = "1"
ryu = "1"
indexmap = "2"
serde = { version = "1", features = ["derive"] }
tokio = { version = "1", features = ["sync", "rt", "macros", "time"] }
futures = "0.3"
uuid = { version = "1", features = ["v4"] }
once_cell = "1"
tracing = "0.1"
log = "0.4"
thiserror = "1"
async-trait = "0.1"

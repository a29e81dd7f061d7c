[package]
name = "gas_estimation"
version = "0.1.0"
edition = "2021"
publish = false

[dependencies]
anyhow = "*"
async-trait = "*"
futures = "*"
http = "*"
primitive-types = "*"
serde = { version = "*", features = ["derive"] }
serde_json = "*"
tokio = { version = "*", features = ["macros", "rt", "sync", "time"] }
tracing = "*"

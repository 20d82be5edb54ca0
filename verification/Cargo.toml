[package]
name = "sparql_bench"
version = "0.1.0"
edition = "2021"
publish = false

[dependencies]
anyhow = "=1.0.104"
clap = { version = "=4.6.7", features = ["derive"] }
csv = "=1.4.0"
prettydiff = "=0.9.0"
rand = "=0.10.3"
reqwest = { version = "=0.13.5", default-features = false, features = ["query"] }
serde = { version = "=1.0.229", features = ["derive"] }
serde_json = "=1.0.151"
tokio = { version = "=1.53.2", features = ["rt-multi-thread", "macros", "sync", "time", "process"] }
tracing = "=0.1.44"
tracing-subscriber = "=0.3.23"

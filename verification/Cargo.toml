[package]
name = "dpmaster-proto"
version = "0.1.0"
edition = "2021"
publish = false

[dependencies]
bytes = "1"
clap = { version = "4", features = ["derive"] }
color-eyre = "0.6"
cookie-factory = "0.3"
eyre = "0.6"
futures = "0.3"
indexmap = "2"
memchr = "2"
nom = "7"
thiserror = "1"
tokio = { version = "1", features = ["macros", "net", "rt-multi-thread"] }
tokio-stream = "0.1"
tokio-util = { version = "0.7", features = ["codec", "net"] }
tracing = "0.1"
tracing-error = "0.2"
tracing-subscriber = { version = "0.3", features = ["env-filter"] }

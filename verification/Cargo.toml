[package]
name = "utrace"
version = "0.1.0"
edition = "2021"
publish = false

[dependencies]
serde_json = "*"
serde = { version = "*", features = ["derive"] }
anyhow = "*"
clap = { version = "*", features = ["derive"] }
tokio = { version = "*", features = ["full"] }
async-scoped = { version = "*", features = ["use-tokio"] }
tracing = "*"
tracing-subscriber = "*"
object = "*"
gimli = "*"
proc-macro2 = "*"
quote = "*"

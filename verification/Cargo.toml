[package]
name = "windmill_deno"
version = "0.1.0"
edition = "2021"
publish = false

[dependencies]
anyhow = "1"
futures = "0.3"
once_cell = "1"
tokio = { version = "1", default-features = false, features = ["rt", "sync"] }
deno_core = "*"

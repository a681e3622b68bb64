[package]
name = "script_server"
version = "0.1.0"
edition = "2021"
publish = false

[dependencies]
tokio = { version = "=1.53.2", features = ["full"] }
hyper = { version = "=1.12.0", features = ["full"] }
hyper-util = { version = "=0.1.21", features = ["full"] }
http-body-util = "=0.1.5"
bytes = "=1.12.1"
serde_json = "=1.0.151"
sqlx = { version = "=0.9.0", default-features = false, features = ["sqlite", "runtime-tokio"] }
deno_core = "*"

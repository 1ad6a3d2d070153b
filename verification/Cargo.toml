[package]
name = "webhttp"
version = "0.1.0"
edition = "2021"
publish = false

[dependencies]
rand = "*"
uuid = { version = "*", features = ["v4"] }
actix = "*"
actix-web = "*"
actix-web-actors = "*"
actix-rt = "*"
actix-http = "*"
tokio = { version = "*", features = ["rt-multi-thread", "macros", "time", "sync"] }
serde = { version = "*", features = ["derive"] }
serde_json = "*"
jsonwebtoken = "*"
anyhow = "*"
time = "*"

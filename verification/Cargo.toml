[package]
name = "socket_io_rust"
version = "0.1.0"
edition = "2021"
publish = false

[dependencies]
serde_json = "*"
uuid = { version = "*", features = ["v4"] }
actix = "*"
actix-rt = "*"
actix-web = "*"
actix-web-actors = "*"

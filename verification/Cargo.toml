[package]
name = "g-server"
version = "0.1.0"
edition = "2021"
publish = false

[dependencies]
rand = "*"
http = "1"
axum = { version = "*", features = ["multipart"] }
tokio = { version = "1", features = ["macros", "rt-multi-thread", "net", "time"] }
tower = { version = "*", features = ["limit", "load-shed", "timeout", "util"] }
tower-http = { version = "*", features = ["cors", "compression-full", "fs", "timeout"] }
serde = { version = "1", features = ["derive"] }
serde_json = "1"
serde_urlencoded = "*"
http-body-util = "*"
bytes = "1"
mime_guess = "2"
rust-embed = "*"
syn = { version = "2", features = ["full", "extra-traits"] }
quote = "1"
proc-macro2 = "1"

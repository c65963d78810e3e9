[package]
name = "exum"
version = "0.1.0"
edition = "2021"
publish = false

[dependencies]
percent-encoding = "2"
convert_case = "0.6"
mime_guess = "2"
httpdate = "1"
axum = "0.8"
tokio = { version = "1", features = ["rt", "rt-multi-thread", "net", "sync", "fs", "macros"] }
tokio-util = { version = "0.7", features = ["io"] }
tower = { version = "0.5", features = ["util"] }
tower-http = { version = "0.6", features = ["cors", "fs"] }
tracing = "0.1"
inventory = "0.3"
serde = { version = "1", features = ["derive"] }
toml = "0.8"
syn = { version = "2", features = ["full"] }
quote = "1"
proc-macro2 = "1"

[package]
name = "pin_gate"
version = "0.1.0"
edition = "2021"
publish = false

[dependencies]
base64 = "0.22"
bytes = "1"
hex = "0.4"
http = "1"
http-body-util = "0.1"
hyper = { version = "1", features = ["client", "http1", "server"] }
hyper-util = { version = "0.1", features = ["tokio"] }
sp-core = "43"
tokio = { version = "1", features = ["macros", "net", "rt-multi-thread"] }
url = "2"

[package]
name = "aeco_launcher"
version = "0.1.0"
edition = "2021"
publish = false

[dependencies]
byte-unit = "=4.0.19"
eframe = "=0.19.0"
futures-util = "=0.3.34"
image = { version = "=0.24.9", default-features = false, features = ["png"] }
open = "=3.2.0"
reqwest = { version = "=0.11.27", features = ["stream"] }
serde_json = "=1.0.154"
subprocess = "=0.2.15"
tempfile = "=3.27.0"
tokio = { version = "=1.54.1", features = ["rt-multi-thread"] }
zip = { version = "=0.6.6", default-features = false, features = ["deflate"] }

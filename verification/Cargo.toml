[package]
name = "neoquery"
version = "0.1.0"
edition = "2021"
publish = false

[dependencies]
base64 = "0.13"
bytes = "1"
hyper = { version = "0.14", features = ["client", "http1", "tcp"] }
hyper-tls = "0.5"
rusoto_core = "0.48"
rusoto_kms = "0.48"
structopt = "0.3"
tokio = { version = "1", features = ["macros", "rt-multi-thread"] }

[dev-dependencies]
serde_json = "1"

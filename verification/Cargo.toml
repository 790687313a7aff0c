[package]
name = "firehose_haiku"
version = "0.1.0"
edition = "2021"
publish = false

[dependencies]
atrium-api = "*"
futures-executor = "*"
futures-util = "*"
ipld-core = "*"
native-tls = "*"
rs-car = "*"
serde_ipld_dagcbor = "*"
syllarust = "*"
tokio = { version = "*", features = ["macros", "rt-multi-thread"] }
tokio-tungstenite = { version = "*", features = ["native-tls"] }
tracing = "*"
tracing-subscriber = "*"
whatlang = "*"

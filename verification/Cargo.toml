[package]
name = "dig-peer-protocol"
version = "0.1.0"
edition = "2021"
publish = false

[dependencies]
chia-protocol = "0.26"
chia-sdk-client = "0.28"
chia-sha2 = "0.26"
chia-ssl = "0.26"
chia-traits = "0.26"
chia_streamable_macro = "0.26"
futures-util = "0.3"
thiserror = "*"
tokio = { version = "1", features = ["macros", "net", "rt", "sync", "time"] }
tokio-tungstenite = "0.24"
tracing = "0.1"
tungstenite = "0.24"

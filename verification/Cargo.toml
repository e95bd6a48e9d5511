[package]
name = "exchange"
version = "0.1.0"
edition = "2021"
publish = false

[dependencies]
rtrb = "*"
crossbeam = "*"
zerocopy = { version = "0.8", features = ["derive"] }
socket2 = { version = "0.5", features = ["all"] }
serde = { version = "1", features = ["derive"] }
serde_json = "*"
thiserror = "*"
tracing = "*"
tracing-subscriber = "*"
ctrlc = "*"
clap = { version = "4", features = ["derive"] }
toml = "*"
uuid = { version = "1", features = ["serde", "v4"] }
rust_decimal = "*"
dotenv = "*"
tokio = { version = "1", features = ["rt-multi-thread", "macros"] }

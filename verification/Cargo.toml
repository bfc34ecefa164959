[package]
name = "storyor"
version = "0.1.0"
edition = "2021"
publish = false

[dependencies]
regex = "1"
sha2 = "0.10"
base64 = "0.22"
serde = { version = "1", features = ["derive"] }
serde_json = "1"
toml = "0.8"
chrono = { version = "0.4", features = ["serde"] }
uuid = { version = "1", features = ["v4", "serde"] }
clap = { version = "4", features = ["derive"] }
tokio = { version = "1", features = ["macros", "rt-multi-thread", "net"] }
axum = "0.8"
tower-http = { version = "0.6", features = ["cors", "fs"] }
reqwest = { version = "0.12", default-features = false, features = ["json", "stream", "rustls-tls"] }
rustls = { version = "0.23", default-features = false, features = ["ring", "std"] }
futures = "0.3"
async-trait = "0.1"
async-stream = "0.3"
bytes = "1"
hound = "3"
symphonia = "*"
thiserror = "2"
tracing = "0.1"
tracing-subscriber = { version = "0.3", features = ["env-filter"] }
ts-rs = { version = "*", features = ["chrono-impl"] }
inventory = "0.3"
axfetchum = { version = "0.1", features = ["axum"] }

[package]
name = "lantun"
version = "0.2.0"
edition = "2021"
publish = false

[dependencies]
bincode = "=2.0.1"
clap = { version = "4", default-features = false, features = ["std", "derive", "help", "usage", "error-context"] }
color-eyre = { version = "0.6", default-features = false }
dirs = "6"
futures = { version = "0.3", default-features = false, features = ["std"] }
hex = "=0.4.3"
iroh = { version = "=1.4.1", default-features = false, features = ["tls-ring"] }
rand = "=0.8.8"
serde = { version = "1", features = ["derive"] }
serde_json = "1"
thiserror = "2"
tokio = { version = "1", features = ["rt-multi-thread", "macros", "net", "io-util", "sync", "time", "signal"] }
tokio-util = { version = "0.7", features = ["rt"] }
toml = "0.8"
tracing = "0.1"
tracing-subscriber = { version = "0.3", default-features = false, features = ["fmt", "std", "env-filter"] }

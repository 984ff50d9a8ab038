[package]
name = "ore_hq_server"
version = "0.1.0"
edition = "2021"
publish = false

[dependencies]
axum = { version = "=0.7.9", default-features = false, features = ["http1", "tokio", "ws"] }
axum-extra = { version = "=0.9.6", default-features = false, features = ["typed-header"] }
clap = { version = "=4.6.7", features = ["derive"] }
colored = "=2.2.0"
dotenv = "=0.15.0"
drillx = "=2.0.1"
eyre = "=0.6.14"
futures = { version = "=0.3.34", default-features = false, features = ["std"] }
ore-api = "=2.2.0"
rand = "=0.8.8"
serde = { version = "=1.0.229", features = ["derive"] }
serde_json = "=1.0.154"
solana-program = "=1.18.26"
solana-sdk = "=1.18.26"
steel = "=1.3.0"
tokio = { version = "=1.54.1", features = ["macros", "net", "rt-multi-thread", "sync", "time"] }
tower-http = { version = "=0.5.2", default-features = false, features = ["trace"] }
tracing = "=0.1.44"
tracing-subscriber = { version = "=0.3.23", default-features = false, features = ["env-filter", "fmt"] }

[package]
name = "drata_cli"
version = "0.1.0"
edition = "2021"
publish = false

[dependencies]
percent-encoding = "2"
clap = { version = "4", features = ["derive"] }
reqwest = { version = "0.12", default-features = false, features = ["json", "multipart", "rustls-tls"] }
tokio = { version = "1", features = ["macros", "rt-multi-thread", "time"] }
serde = { version = "1", features = ["derive"] }
serde_json = "1"
eyre = "0.6"
tracing = "0.1"
tracing-subscriber = { version = "0.3", features = ["env-filter", "fmt"] }
dirs = "6"
mime_guess = "2"
terminal_size = "0.4"
thiserror = "2"
uuid = { version = "1", features = ["v4"] }

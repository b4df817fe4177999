[package]
name = "fic_engine"
version = "0.1.0"
edition = "2021"
publish = false

[dependencies]
anyhow = "1"
axum = "*"
byteorder = "1"
clap = { version = "4", features = ["derive"] }
csv = "1"
encoding_rs = "0.8"
odbc-api = "*"
once_cell = "1"
rayon = "1"
regex = "1"
rust-ini = "*"
serde = { version = "1", features = ["derive"] }
serde_json = "1"
tokio = { version = "1", features = ["full"] }
toml = "*"
tower-http = { version = "*", features = ["cors", "limit", "trace"] }
tracing = "0.1"
tracing-subscriber = { version = "0.3", features = ["env-filter"] }
widestring = "1"

[package]
name = "mdbook-validator"
version = "0.1.0"
edition = "2021"
publish = false

[dependencies]
anyhow = "1"
async-trait = "0.1"
bollard = "*"
futures-util = "0.3"
mdbook-preprocessor = "*"
pulldown-cmark = { version = "*", default-features = false }
serde = { version = "1", features = ["derive"] }
serde_json = "1"
testcontainers = "*"
thiserror = "*"
tokio = { version = "1", features = ["rt", "io-util"] }
toml = "*"
tracing = "0.1"
tracing-subscriber = { version = "0.3", features = ["env-filter"] }

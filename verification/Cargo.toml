[package]
name = "meda"
version = "0.1.0"
edition = "2021"
publish = false

[dependencies]
axum = "0.7"
backon = "0.4"
chrono = { version = "0.4", features = ["serde"] }
clap = { version = "4", features = ["derive"] }
dirs = "5"
env_logger = "0.11"
flate2 = "1"
futures-util = "0.3"
indicatif = "0.17"
log = "0.4"
rand = "0.8"
reqwest = { version = "0.12", default-features = false, features = ["stream", "rustls-tls"] }
serde = { version = "1", features = ["derive"] }
serde_json = "1"
tar = "0.4"
thiserror = "1"
tokio = { version = "1", features = ["full"] }
tower = "0.4"
tower-http = { version = "0.5", features = ["cors", "trace"] }
utoipa = { version = "4", features = ["axum_extras", "chrono"] }
utoipa-swagger-ui = { version = "6", features = ["axum"] }

[package]
name = "racer"
version = "0.1.0"
edition = "2021"
publish = false

[dependencies]
url = "=2.5.8"
hmac = "=0.12.1"
sha2 = "=0.10.9"
hex = "=0.4.3"
serde = { version = "=1.0.229", features = ["derive"] }
serde_json = "=1.0.154"
thiserror = "=1.0.69"
axum = { version = "=0.7.9", features = ["ws"] }
axum-extra = { version = "=0.9.6", features = ["typed-header"] }
axum-typed-websockets = "=0.6.0"
axum-derive-error = "=0.1.0"
tokio = { version = "=1.54.1", features = ["full"] }
futures = "=0.3.34"
chrono = "=0.4.45"
deadpool-redis = "=0.14.0"
sea-orm = { version = "=0.12.15", default-features = false, features = ["macros", "with-json", "with-chrono", "with-rust_decimal"] }
teloxide = { version = "=0.12.2", default-features = false, features = ["macros", "rustls"] }
takecell = "=0.1.1"
rust_decimal = { version = "=1.43.0", features = ["serde"] }
dotenv = "=0.15.0"
tracing = "=0.1.44"
tracing-subscriber = "=0.3.23"
validator = "=0.16.1"

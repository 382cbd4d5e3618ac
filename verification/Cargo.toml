[package]
name = "classroom_dashboard"
version = "0.1.0"
edition = "2021"
publish = false

[dependencies]
axum = "0.6"
chrono = "0.4"
google-classroom1 = "5"
hex = "0.4"
oauth2 = "4"
once_cell = "1"
reqwest = { version = "0.11", default-features = false, features = ["rustls-tls"] }
serde = { version = "1", features = ["derive"] }
serde_json = "1"
tera = "1"
thiserror = "1"
tokio = { version = "1", features = ["full"] }
toml = "0.7"
tower-cookies = { version = "0.9", features = ["private"] }
tower-http = { version = "0.4", features = ["fs"] }

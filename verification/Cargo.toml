[package]
name = "dockge_backend"
version = "0.1.0"
edition = "2021"
publish = false

[dependencies]
axum = "=0.8.9"
bcrypt = "=0.17.1"
chrono = "=0.4.45"
clap = { version = "=4.6.7", features = ["derive", "env"] }
data-encoding = "=2.11.1"
hex = "=0.4.3"
hmac = "=0.12.1"
jsonwebtoken = "=9.3.1"
portable-pty = "=0.9.0"
rand = "=0.9.5"
regex = "=1.13.1"
reqwest = { version = "=0.12.28", default-features = false, features = ["json", "rustls-tls"] }
serde = { version = "=1.0.229", features = ["derive"] }
serde_json = "=1.0.154"
serde_yaml = "=0.9.34"
sha1 = "=0.10.7"
sha3 = "=0.10.9"
socketioxide = { version = "=0.16.3", features = ["extensions"] }
sqlx = { version = "=0.8.6", default-features = false, features = ["runtime-tokio", "sqlite"] }
tempfile = "=3.27.0"
tokio = { version = "=1.54.1", features = ["full"] }
tower-http = { version = "=0.6.11", features = ["fs", "cors", "compression-gzip"] }
tracing = "=0.1.44"
tracing-subscriber = { version = "=0.3.23", features = ["env-filter"] }
urlencoding = "=2.1.3"

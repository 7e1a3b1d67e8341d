[package]
name = "xzar"
version = "0.1.0"
edition = "2021"
publish = false

[dependencies]
base64 = "=0.22.1"
sha2 = "=0.10.9"
ed25519-dalek = "=2.2.0"
rand = "=0.8.8"
url = "=2.5.8"
dirs = "=5.0.1"
chrono = "=0.4.45"
serde = { version = "=1.0.229", features = ["derive"] }
serde_json = "=1.0.154"
serde_yaml = "=0.9.34"
toml = "=0.8.23"
clap = { version = "=4.6.7", features = ["derive"] }
anyhow = "=1.0.104"
tokio = { version = "=1.54.1", features = ["full"] }
reqwest = { version = "=0.12.28", default-features = false, features = ["json", "multipart", "stream", "rustls-tls"] }
rocket = { version = "=0.5.2", features = ["json"] }
diesel = { version = "=2.3.14", features = ["postgres", "r2d2", "chrono"] }
diesel_migrations = "=2.3.2"
futures = "=0.3.34"
tokio-util = { version = "=0.7.20", features = ["io"] }
tracing = "=0.1.44"
tracing-subscriber = { version = "=0.3.23", features = ["env-filter"] }
num_cpus = "=1.17.0"
dotenvy = "=0.15.7"
which = "=8.0.6"
indicatif = "=0.18.6"
async-compression = { version = "=0.4.52", features = ["tokio", "xz"] }
rocket_cors = "=0.6.0"
openid = "=0.18.3"
multer = "=3.1.0"

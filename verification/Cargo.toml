[package]
name = "weather_api_rust"
version = "0.1.0"
edition = "2021"
publish = false

[dependencies]
weather_util_rust = "=0.16.24"
isocountry = "=0.3.2"
url = "=2.5.8"
time = "=0.3.55"
serde = { version = "=1.0.229", features = ["derive"] }
serde_json = "=1.0.154"
serde_urlencoded = "=0.7.1"
anyhow = "=1.0.104"
tokio = { version = "=1.54.1", features = ["full"] }
axum = "=0.8.9"
tower-http = { version = "=0.7.1", features = ["cors"] }
cached = { version = "=4.1.0", default-features = false, features = ["proc_macro", "async", "time_stores"] }
dotenvy = "=0.15.7"
envy = "=0.4.2"
dirs = "=7.0.0"
clap = { version = "=4.6.7", features = ["derive"] }
log = "=0.4.35"
env_logger = "=0.11.11"
rand = "=0.9.5"
# Database access in app/, in place of postgres_query; the named query
# parameters that crate bound are bound by the verified src/params.rs.
deadpool-postgres = "=0.14.2"
tokio-postgres = { version = "=0.7.18", features = ["with-time-0_3", "with-uuid-1"] }
uuid = { version = "=1.29.0", features = ["v4", "serde"] }

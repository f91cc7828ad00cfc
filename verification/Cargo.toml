[package]
name = "cache_me"
version = "0.1.0"
edition = "2021"
publish = false

[dependencies]
actix-files = "0.6"
actix-http = "3"
actix-web = { version = "4", default-features = false, features = ["macros"] }
async-trait = "0.1"
bytes = "1"
chrono = "0.4"
env_logger = "0.11"
flate2 = "1"
futures-util = "0.3"
hex = "0.4"
http = "1"
http-body-util = "0.1"
hyper = { version = "1", features = ["http1", "server"] }
hyper-util = { version = "0.1", features = ["tokio"] }
lazy_static = "1"
log = "0.4"
md-5 = "0.10"
prometheus = { version = "0.13", default-features = false }
regex = "1"
reqwest = { version = "0.12", default-features = false, features = ["stream"] }
serde = { version = "1", features = ["derive"] }
serde_json = "1"
sled = "0.34"
sysinfo = "0.33"
tokio = { version = "1", features = ["full"] }
tokio-util = { version = "0.7", features = ["io"] }
tracing = "0.1"

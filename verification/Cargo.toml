[package]
name = "ygege"
version = "0.1.0"
edition = "2021"
publish = false

[dependencies]
chrono = { version = "=0.4.45", default-features = false, features = ["std", "alloc"] }
scraper = "=0.29.0"
base64 = "=0.22.1"
serde = { version = "=1.0.229", features = ["derive"] }
serde_json = "=1.0.154"
qstring = "=0.7.2"
log = "=0.4.35"
tokio = { version = "=1.54.1", features = ["full"] }
actix-web = { version = "=4.18.1", default-features = false, features = ["macros"] }
wreq = { version = "=0.15.3", features = ["json", "cookies", "gzip", "brotli", "zstd", "deflate"] }
wreq-util = "=0.1.0"
futures = "=0.3.34"
async-stream = "=0.3.6"
sysinfo = { version = "=0.40.1", default-features = false, features = ["system"] }

[dev-dependencies]
urlencoding = "=2.1.3"

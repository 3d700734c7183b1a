[package]
name = "weirdproxy"
version = "0.1.0"
edition = "2021"
publish = false

[dependencies]
axum = { version = "=0.7.9", features = ["ws"] }
base32 = "=0.5.1"
confy = "=2.0.0"
futures-util = "*"
hyper = "=1.12.0"
lol_html = "=3.0.1"
reqwest = { version = "0.13", default-features = false, features = ["gzip", "brotli", "deflate", "zstd", "stream"] }
reqwest-websocket = "=0.6.0"
serde = { version = "1", features = ["derive"] }
serde_json = "1"
tokio = { version = "1", features = ["macros", "rt-multi-thread", "signal", "net"] }
tower = { version = "*", features = ["util"] }
tower-http = { version = "*", features = ["cors"] }

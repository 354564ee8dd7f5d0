[package]
name = "deno_host"
version = "0.1.0"
edition = "2021"
publish = false

[dependencies]
anyhow = "=1.0.104"
async-channel = "=2.5.0"
async-compression = { version = "=0.4.52", features = ["tokio", "brotli", "gzip"] }
brotli = "=6.0.0"
cache_control = "=0.2.0"
clap = "=4.6.7"
deno_core = "=0.293.0"
deno_npm = "=0.21.4"
deno_terminal = "=0.1.1"
flate2 = "=1.1.10"
futures = "=0.3.34"
hyper = { version = "=0.14.32", features = ["stream", "http1", "server"] }
hyper-util = { version = "=0.1.21", features = ["tokio"] }
serde = { version = "=1.0.229", features = ["derive"] }
serde_json = "=1.0.154"
tokio = { version = "=1.54.1", features = ["full"] }
uuid = { version = "=1.29.0", features = ["v4"] }

[dev-dependencies]
deno_lockfile = "=0.20.0"

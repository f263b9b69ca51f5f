[package]
name = "microchassis"
version = "0.1.0"
edition = "2021"
publish = false

[dependencies]
backtrace = "0.3"
rustc-demangle = "0.1"
http = "0.2"
tempfile = "3"
tikv-jemalloc-ctl = { version = "0.5", features = ["use_std"] }
tikv-jemalloc-sys = { version = "0.5", features = ["profiling"] }
tikv-jemallocator = { version = "0.5", features = ["profiling"] }
lazy_static = "1"
thiserror = "1"
log = "0.4"
libc = "0.2"
tokio = { version = "1", features = ["rt", "signal", "sync", "macros"] }
tracing = "0.1"
tracing-subscriber = { version = "0.3", features = ["json"] }
futures = "0.3"
opentelemetry = { version = "0.18", features = ["metrics", "rt-tokio"] }
opentelemetry_sdk = { version = "0.18", features = ["metrics", "rt-tokio"] }
opentelemetry-prometheus = "0.11"

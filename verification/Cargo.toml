[package]
name = "mx_daemon"
version = "0.1.0"
edition = "2021"
publish = false

[dependencies]
zbus = { version = "=5.19.0", default-features = false, features = ["tokio"] }
zbus_polkit = "=5.1.0"
tokio = { version = "=1.54.1", features = ["rt-multi-thread", "macros", "signal", "time", "sync"] }
tracing = "=0.1.44"
tracing-subscriber = { version = "=0.3.23", features = ["env-filter"] }
async-trait = "=0.1.92"
futures = "=0.3.34"
futures-util = "=0.3.34"
thiserror = "=2.0.21"

[package]
name = "nyanpasu_ipc"
version = "0.1.0"
edition = "2021"
publish = false

[dependencies]
tokio = { version = "*", features = ["rt-multi-thread", "macros", "net", "io-util"] }
axum = { version = "*", features = ["ws"] }
hyper = { version = "*", features = ["http1", "server"] }
hyper-util = { version = "*", features = ["tokio", "server", "server-auto"] }
interprocess = { version = "*", features = ["tokio"] }
tower = "*"

[dev-dependencies]
serde_json = "*"

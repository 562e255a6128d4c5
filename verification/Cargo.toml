[package]
name = "io-thread-controller"
version = "0.1.0"
edition = "2021"
publish = false

[dependencies]
async-trait = "0.1"
clap = { version = "4", features = ["derive"] }
fuser = { version = "*", default-features = false }
futures-util = { version = "0.3", default-features = false, features = ["std", "alloc"] }
linkme = "0.3"
procfs = { version = "*", default-features = false }
serde = { version = "1", features = ["derive"] }
serde_json = "1"
thiserror = "2"
tokio = { version = "1", features = ["macros", "rt-multi-thread", "signal", "sync", "time"] }
tracing = "0.1"
zbus = { version = "5", default-features = false, features = ["tokio"] }

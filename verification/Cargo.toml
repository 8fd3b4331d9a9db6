[package]
name = "bashlet"
version = "0.1.0"
edition = "2021"
publish = false

[dependencies]
async-trait = "*"
chrono = "*"
clap = { version = "*", features = ["derive", "env"] }
directories = "*"
flate2 = "*"
http-body-util = "*"
hyper = "*"
hyper-util = "*"
hyperlocal = "*"
reqwest = { version = "*", default-features = false }
serde = { version = "*", features = ["derive"] }
serde_json = "*"
tar = "*"
thiserror = "*"
tokio = { version = "*", features = ["full"] }
toml = "*"
tracing = "*"
tracing-subscriber = "*"
which = "*"

[package]
name = "slnky"
version = "0.1.0"
edition = "2021"
publish = false

[dependencies]
url = "2"
anyhow = "1"
clap = { version = "4", features = ["derive"] }
colored = "2"
directories = "5"
indicatif = "0.17"
notify = "6"
notify-debouncer-full = "0.3"
rpassword = "7"
secrecy = "0.8"
age = "0.10"
serde = { version = "1", features = ["derive"] }
serde_json = "1"
thiserror = "1"
tokio = { version = "1", features = ["rt", "rt-multi-thread", "macros", "sync", "signal", "time"] }
toml = "0.8"

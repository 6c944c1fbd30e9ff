[package]
name = "pleroma_rss"
version = "0.1.0"
edition = "2021"
publish = false

[dependencies]
chrono = "*"
rss = "*"
url = "*"
urlencoding = "*"
uuid = { version = "*", features = ["v4"] }
megalodon = "*"
reqwest = "*"
tokio = { version = "*", features = ["macros", "rt-multi-thread", "time"] }
clap = { version = "*", features = ["derive"] }
log = "*"
pretty_env_logger = "*"
thiserror = "*"

[package]
name = "resume_youtube"
version = "0.1.0"
edition = "2021"
publish = false

[dependencies]
url = "=2.5.8"
percent-encoding = "=2.3.2"
regex = "=1.13.1"
serde = { version = "=1.0.229", features = ["derive"] }
serde_json = "=1.0.154"
clap = { version = "=4.6.7", features = ["derive"] }
tokio = { version = "=1.54.1", features = ["rt-multi-thread", "macros", "time", "sync"] }
reqwest = { version = "=0.12.28", default-features = false, features = ["json", "rustls-tls", "stream"] }
anyhow = "=1.0.104"
thiserror = "=1.0.69"
tempfile = "=3.27.0"
wait-timeout = "=0.2.1"
futures-util = "=0.3.34"
encoding_rs = "=0.8.44"
once_cell = "=1.21.4"
llama-cpp-2 = "=0.1.160"

[package]
name = "deploy"
version = "0.1.0"
edition = "2021"
publish = false

[dependencies]
anyhow = "1"
clap = { version = "4", features = ["derive"] }
dirs = "6"
dix = "1.4"
flexi_logger = "0.31"
futures-util = "0.3"
log = "0.4"
merge = "=0.2.0"
notify = "8"
rpassword = "7"
serde = { version = "1", features = ["derive"] }
serde_json = "=1.0.154"
shlex = "=1.3.0"
signal-hook = "0.3"
thiserror = "2"
tokio = { version = "1", features = ["full"] }
toml = "0.9"
unescape = "=0.1.0"
yn = "=0.1.1"

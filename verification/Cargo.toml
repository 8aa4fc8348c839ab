[package]
name = "robopages"
version = "0.1.0"
edition = "2021"
publish = false

[dependencies]
actix-cors = "=0.7.2"
actix-web = { version = "=4.18.1", default-features = false }
actix-web-lab = "=0.23.0"
anyhow = "=1.0.104"
async-ssh2-tokio = "=0.8.15"
camino = "=1.2.6"
clap = { version = "=4.6.7", features = ["derive"] }
env_logger = "=0.11.11"
futures = "=0.3.34"
glob = "=0.3.4"
log = "=0.4.34"
reqwest = { version = "=0.12.28", default-features = false }
serde = { version = "=1.0.229", features = ["derive"] }
serde_yaml = "=0.9.34"
shell-escape = "=0.1.5"
shellexpand = "=3.1.2"
tempfile = "=3.27.0"
tokio = { version = "=1.54.1", features = ["full"] }
which = "=7.0.3"
zip = { version = "=9.0.5", default-features = false, features = ["deflate"] }

[package]
name = "forum_saver"
version = "0.2.0"
edition = "2021"
publish = false

[dependencies]
url = "=2.5.8"
regex = "=1.13.1"
reqwest = { version = "=0.12.28", default-features = false, features = ["cookies", "rustls-tls", "charset"] }
kuchiki = "=0.8.1"
tokio = { version = "=1.54.1", features = ["full"] }
serde = { version = "=1.0.229", features = ["derive"] }
serde_json = "=1.0.154"
toml = "=1.2.1"
clap = { version = "=4.6.7", features = ["derive"] }
clap-cargo = { version = "=0.19.0", default-features = false, features = ["clap"] }
anyhow = "=1.0.104"
thiserror = "=2.0.21"
log = "=0.4.35"
env_logger = "=0.11.11"
chrono = "=0.4.45"
dirs = "=7.0.0"
indicatif = "=0.18.6"
futures-util = "=0.3.34"
dashmap = "=6.2.1"
pathdiff = "=0.2.3"
fluent = "=0.17.0"
fluent-bundle = "=0.16.0"
unic-langid = { version = "=0.9.6", features = ["macros"] }
sys-locale = "=0.3.2"
lazy_static = "=1.5.1"
async-trait = "=0.1.92"

[package]
name = "theia_plugins"
version = "0.1.0"
edition = "2021"
publish = false

[dependencies]
serde_json = "*"
quick-xml = "*"
zip = { version = "*", default-features = false, features = ["deflate"] }
surf = "*"
async-std = "*"
futures = "*"
log = "*"
env_logger = "*"
chrono = "*"
structopt = "*"
toml = "*"

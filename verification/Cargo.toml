[package]
name = "prefix_gateway"
version = "0.1.0"
edition = "2021"
publish = false

[dependencies]
dashmap = "*"
serde_json = "*"
redis = "*"
pingora = "*"
pingora-core = "*"
pingora-proxy = "*"
async-trait = "*"
bytes = "*"
http = "*"
log = "*"
env_logger = "*"
once_cell = "*"

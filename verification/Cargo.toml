[package]
name = "protox"
version = "0.1.0"
edition = "2021"
publish = false

[dependencies]
unindent = "0.2"
serde_yaml = "0.9"
serde = { version = "1", features = ["derive"] }
serde_json = "1"
anyhow = "1"
thiserror = "1"
log = "0.4"
env_logger = "0.10"
clap = "3"
handlebars = "4"
rhai = "1"
prost = "0.12"
prost-types = "0.12"
walkdir = "2"
tempfile = "3"

[package]
name = "luthien"
version = "0.1.0"
edition = "2021"
publish = false

[dependencies]
palette = "0.5"
rayon = "1"
serde = { version = "1", features = ["derive"] }
serde_json = "1"
image = "0.23"
dirs = "3"
ipipe = "*"
log = "0.4"
pretty_env_logger = "0.4"
structopt = "0.3"
colored = "2"
color-eyre = "*"
toml = "0.5"

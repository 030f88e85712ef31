[package]
name = "pescan"
version = "0.1.0"
edition = "2021"
publish = false

[dependencies]
anyhow = "1"
camino = "1"
clap = { version = "4", features = ["derive"] }
csv = "1"
dirs = "*"
goblin = "*"
indicatif = "*"
reqwest = { version = "0.12", default-features = false, features = ["rustls-tls"] }
rmp-serde = "1"
scraper = "*"
serde = { version = "1", features = ["derive"] }
serde_json = "1"
serde_with = "3"
serde_yml = "*"
tabled = "*"
tokio = { version = "1", features = ["rt-multi-thread", "macros", "sync"] }
toml = "*"

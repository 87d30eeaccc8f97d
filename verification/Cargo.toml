[package]
name = "otternel"
version = "0.1.0"
edition = "2021"
publish = false

[dependencies]
regex = "=1.13.1"
notify = "=6.1.1"
toml = "=0.8.23"
serde = { version = "=1.0.229", features = ["derive"] }
envy = "=0.4.2"
dotenvy = "=0.15.7"
ureq = { version = "=2.12.1", features = ["json"] }
serde_json = "=1.0.154"
chrono = "=0.4.45"
rand = "0.8"

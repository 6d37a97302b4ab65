[package]
name = "marlinflow"
version = "0.1.0"
edition = "2021"
publish = false

[dependencies]
cozy-chess = "*"
rand = "0.8"
rayon = "*"
serde = { version = "*", features = ["derive"] }
serde_json = "*"
structopt = "*"
tempfile = "*"

[package]
name = "checkpr"
version = "0.1.0"
edition = "2021"
publish = false

[dependencies]
anyhow = "*"
git2 = "*"
rayon = "*"
serde = { version = "*", features = ["derive"] }
serde_json = "*"
structopt = "*"
subprocess = "*"
tempfile = "*"
toml = "*"

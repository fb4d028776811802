[package]
name = "pypi_requires"
version = "0.1.0"
edition = "2021"
publish = false

[dependencies]
semver = "*"
zip = "*"
flate2 = "*"
tar = "*"
serde = { version = "*", features = ["derive"] }
serde_json = "*"
toml = "*"
reqwest = { version = "*", default-features = false, features = ["blocking", "rustls-tls"] }
clap = "*"
rayon = "*"

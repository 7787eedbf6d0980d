[package]
name = "cosmo"
version = "0.1.0"
edition = "2021"
publish = false

[dependencies]
anyhow = "*"
arrow-array = "*"
arrow-schema = "*"
cel = "*"
clap = { version = "*", features = ["derive"] }
crossbeam-channel = "*"
geo-types = "*"
geozero = { version = "*", features = ["with-wkb", "with-geo"] }
osmpbf = "*"
parquet = { version = "*", features = ["arrow"] }
rayon = "*"
serde = { version = "*", features = ["derive"] }
serde_json = "*"
serde_yaml = "*"
time = { version = "*", features = ["formatting"] }

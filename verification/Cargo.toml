[package]
name = "zola"
version = "0.1.0"
edition = "2021"
publish = false

[dependencies]
globset = "=0.4.21"
unic-langid = "=0.9.6"
unicode-segmentation = "=1.13.3"
slotmap = "=1.1.1"
rayon = "=1.12.0"
lexical-sort = "=0.3.1"
slug = "=0.1.6"
toml = "=0.8.23"
chrono = "=0.4.45"
serde = { version = "=1.0.229", features = ["derive"] }
regex = "=1.13.1"

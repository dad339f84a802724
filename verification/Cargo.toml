[package]
name = "track_rename"
version = "0.1.0"
edition = "2021"
publish = false

[dependencies]
anyhow = "1"
base64 = "0.22"
clap = { version = "4", features = ["derive"] }
clap_complete = "4"
colored = "*"
crossterm = "*"
difference = "2"
dirs = "*"
dunce = "1"
id3 = "1"
itertools = "*"
rayon = "1"
regex = "1"
rusqlite = { version = "*", features = ["bundled"] }
serde = { version = "1", features = ["derive"] }
serde_json = "1"
titlecase = "*"
toml = "*"
trash = "*"
unicode-normalization = "0.1"
walkdir = "2"

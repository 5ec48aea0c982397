[package]
name = "knoxmancer"
version = "0.2.0"
edition = "2021"
publish = false

[dependencies]
clap = { version = "4", features = ["derive"] }
clap_complete = "4"
image = { version = "0.25", default-features = false, features = ["png"] }
pulldown-cmark = { version = "0.13", default-features = false }
regex = "1"
serde = { version = "1", features = ["derive"] }
serde_json = "1"
steamlocate = "2"
toml = "0.8"
walkdir = "2"

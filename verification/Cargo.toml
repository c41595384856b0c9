[package]
name = "gallerygen"
version = "0.1.0"
edition = "2021"
publish = false

[dependencies]
anyhow = "=1.0.104"
clap = { version = "=4.5.61", features = ["derive"] }
glob = "=0.3.4"
handlebars = { version = "=4.5.0", features = ["script_helper"] }
image = "=0.24.9"
ron = "*"
serde = { version = "=1.0.229", features = ["derive"] }
slug = "=0.1.6"

[package]
name = "emu_cli"
version = "0.1.0"
edition = "2021"
publish = false

[dependencies]
anyhow = "1"
byte-unit = "5"
clap = { version = "4", features = ["derive"] }
dirs = "*"
fork = "*"
kdam = "*"
serde = { version = "1", features = ["derive"] }
serde_json = "1"
tinytemplate = "1"
tokio = { version = "1", features = ["full"] }
toml = "*"

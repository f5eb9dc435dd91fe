[package]
name = "climan"
version = "0.1.0"
edition = "2021"
publish = false

[dependencies]
anyhow = "=1.0.104"
clap = { version = "=4.6.7", features = ["derive"] }
log = "=0.4.34"
reqwest = { version = "=0.13.5", default-features = false, features = ["query"] }
schemars = "=1.2.2"
serde = { version = "=1.0.229", features = ["derive"] }
serde_json = "=1.0.151"
serde_yaml = "=0.9.34"
simplelog = "=0.12.2"
strum = { version = "=0.28.0", features = ["derive"] }
termimad = "=0.35.5"
tokio = { version = "=1.53.2", features = ["macros", "rt-multi-thread", "fs"] }

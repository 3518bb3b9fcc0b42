[package]
name = "linear-cli"
version = "0.1.0"
edition = "2021"
publish = false

[dependencies]
anyhow = "=1.0.104"
chrono = "=0.4.45"
clap = { version = "=4.6.7", features = ["derive"] }
colored = "=3.1.1"
keyring = { version = "=3.6.3", default-features = false, features = ["linux-native"] }
rand = "=0.10.3"
reqwest = { version = "=0.13.5", default-features = false }
serde_json = "=1.0.151"
tokio = { version = "=1.53.2", features = ["macros", "rt", "time"] }

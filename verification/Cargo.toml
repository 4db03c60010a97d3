[package]
name = "sumo"
version = "0.1.0"
edition = "2021"
publish = false

[dependencies]
chrono = "0.4"
clap = { version = "4", features = ["derive"] }
comfy-table = "7"
csv = "1"
ctrlc = "3"
dialoguer = "0.11"
directories = "5"
keyring = { version = "3", features = ["linux-native", "apple-native", "windows-native"] }
reqwest = { version = "0.12", default-features = false, features = ["blocking", "json", "cookies", "rustls-tls"] }
serde = { version = "1", features = ["derive"] }
serde_json = "1"
toml = "0.8"

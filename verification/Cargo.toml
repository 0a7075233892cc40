[package]
name = "jsscli"
version = "0.3.0"
edition = "2021"
publish = false

[dependencies]
aes-gcm = "0.10"
hex = "0.4"
rand = "0.8"
sha2 = "0.10"
hkdf = "0.12"
anyhow = "1"
thiserror = "1"
clap = { version = "4", features = ["derive", "env"] }
serde = { version = "1", features = ["derive"] }
serde_json = "1"
toml = "0.8"
tokio = { version = "1", features = ["macros", "rt-multi-thread"] }
chrono = { version = "0.4", features = ["serde"] }
dirs-next = "2"
keyring = { version = "3", features = ["linux-native"] }
rpassword = "7"
colored = "2"
colored_json = "5"
comfy-table = "7"
minus = { version = "5", features = ["static_output"] }
shellexpand = "3"
reqwest = "0.12"
secrecy = "0.10"
librjss = "*"

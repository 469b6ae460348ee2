[package]
name = "thaum"
version = "0.1.0"
edition = "2021"
publish = false

[dependencies]
fastrand = "2"
serde = { version = "1", features = ["derive"] }
toml = "0.8"
tokio = { version = "1", features = ["full"] }
tokio-tungstenite = "0.21"
tungstenite = "0.21"
futures-util = "0.3"
owo-colors = "3"
color-eyre = "0.6"
eyre = "0.6"
walkdir = "2"
once_cell = "1"
async-recursion = "1"
serde-enum-str = "0.4"

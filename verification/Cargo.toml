[package]
name = "wordguessr"
version = "0.1.0"
edition = "2021"
publish = false

[dependencies]
rand = "0.9"
async-trait = "*"
axum = { version = "*", features = ["ws"] }
clap = { version = "*", features = ["derive"] }
color-eyre = "*"
futures-util = "*"
maud = "*"
serde = { version = "*", features = ["derive"] }
serde_json = "*"
tokio = { version = "*", features = ["full"] }
uuid = { version = "*", features = ["v4"] }

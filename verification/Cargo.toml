[package]
name = "soundcheck"
version = "0.1.0"
edition = "2021"
publish = false

[dependencies]
clap = "*"
cpal = "*"
rand = "*"
reqwest = { version = "*", default-features = false, features = ["json"] }
rodio = "*"
serde = { version = "*", features = ["derive"] }
tokio = { version = "*", features = ["macros", "rt-multi-thread"] }
url = "*"

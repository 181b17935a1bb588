[package]
name = "typing_game"
version = "0.1.0"
edition = "2021"
publish = false

[dependencies]
rand = "0.7"
termion = "1"
tokio = { version = "0.2", features = ["full"] }
futures = "0.3"

[package]
name = "tank_game"
version = "0.1.0"
edition = "2021"
publish = false

[dependencies]
rstar = "*"
euclid = "0.22"
raqote = { version = "0.8", default-features = false }
serde = { version = "1", features = ["derive"] }
rmp-serde = "1"
tokio = { version = "1", features = ["full"] }
futures = "0.3"
tokio-tungstenite = "*"
warp = "0.3"
parking_lot = "0.12"

[package]
name = "warp_usage"
version = "0.1.0"
edition = "2021"
publish = false

[dependencies]
uuid = { version = "1", features = ["v4"] }
pathfinder_color = "0.5"

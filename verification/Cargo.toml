[package]
name = "wastebin"
version = "0.1.0"
edition = "2021"
publish = false

[dependencies]
rand = "*"
syntect = { version = "*", default-features = false, features = ["default-fancy"] }
axum = "*"
tokio = { version = "*", features = ["macros", "rt-multi-thread"] }
serde = { version = "*", features = ["derive"] }

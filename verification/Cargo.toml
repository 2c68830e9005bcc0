[package]
name = "letterbox"
version = "0.1.0"
edition = "2021"
publish = false

[dependencies]
chrono = "0.4"
dotenv = "0.15"
ellipse = "0.2"
jammdb = "*"
random_color = "*"
rmp-serde = "*"
serde = { version = "1", features = ["derive"] }
serenity = "0.11"
tokio = { version = "1", features = ["macros", "rt-multi-thread", "time"] }

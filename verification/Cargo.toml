[package]
name = "bird_routes"
version = "0.1.0"
edition = "2021"
publish = false

[dependencies]
toml = "*"
actix-web = "*"
serde = { version = "*", features = ["derive"] }

[package]
name = "url_shortener"
version = "0.1.0"
edition = "2021"
publish = false

[dependencies]
serde = { version = "1", features = ["derive"] }
confy = "*"
actix-web = "4"
actix-files = "*"
actix-settings = "*"
mysql = { version = "*", default-features = false }

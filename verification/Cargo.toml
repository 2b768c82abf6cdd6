[package]
name = "pappap_chain"
version = "0.1.0"
edition = "2021"
publish = false

[dependencies]
aes-gcm = "0.10"
rand = "0.8"
sha2 = "0.10"
urlencoding = "2"
scraper = "0.19"
serde = { version = "1", features = ["derive"] }
serde_json = "1"
toml = "0.8"
tokio = { version = "1", features = ["full"] }
actix-web = "4"
chrono = "0.4"
once_cell = "1"
reqwest = { version = "0.12", default-features = false, features = ["rustls-tls"] }

[dev-dependencies]
hex = "0.4"

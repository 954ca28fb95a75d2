[package]
name = "fish-bot"
version = "0.1.0"
edition = "2021"
publish = false

[dependencies]
serde = { version = "1", features = ["derive"] }
serde_json = "1"
base64 = "0.22"
md5 = "0.7"
rand = "0.8"
rmp-serde = "1"
regex = "1"
uuid = { version = "1", features = ["v4"] }
urlencoding = "2"
tokio = { version = "1", features = ["full"] }
async-trait = "0.1"
futures = "0.3"
parking_lot = "0.12"
tokio-tungstenite = { version = "0.24", features = ["rustls-tls-webpki-roots"] }
reqwest = { version = "0.12", default-features = false, features = ["json", "cookies", "rustls-tls"] }
kameo = "*"
qrcode = "0.14"
tracing = "0.1"
tracing-subscriber = "0.3"
snafu = "0.8"

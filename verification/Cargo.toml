[package]
name = "mague-rc"
version = "0.1.0"
edition = "2021"
publish = false

[dependencies]
async-stream = "0.3"
dotenvy = "0.15"
eventsource-stream = "0.2"
futures-channel = "0.3"
futures-util = { version = "0.3", features = ["sink"] }
gtk4 = "*"
gtk4-layer-shell = "*"
pulldown-cmark = { version = "*", default-features = false }
reqwest = { version = "0.12", default-features = false, features = ["json", "stream", "rustls-tls"] }
rustls = { version = "0.23", default-features = false, features = ["ring", "std", "tls12"] }
serde = { version = "1", features = ["derive"] }
serde_json = "1"
thiserror = "2"
tokio = { version = "1", features = ["full"] }
tokio-tungstenite = { version = "*", features = ["rustls-tls-webpki-roots"] }
tracing = "0.1"
tracing-subscriber = { version = "0.3", features = ["env-filter"] }
url = "2"

[package]
name = "ntfier"
version = "0.1.0"
edition = "2021"
publish = false

[dependencies]
base64 = "=0.22.1"
chrono = { version = "=0.4.45", default-features = false, features = ["now"] }
pulldown-cmark = { version = "=0.12.2", default-features = false }
rand = "=0.8.8"
serde_json = "=1.0.154"
url = "=2.5.8"
uuid = { version = "=1.29.0", features = ["v4"] }
diesel = { version = "2", default-features = false, features = ["sqlite"] }
diesel_migrations = { version = "2", features = ["sqlite"] }
futures-util = "0.3"
image = { version = "0.25", default-features = false, features = ["png", "jpeg"] }
keyring = "3"
log = "0.4"
reqwest = { version = "0.12", default-features = false, features = ["rustls-tls"] }
serde = { version = "1", features = ["derive"] }
serde_repr = "0.1"
thiserror = "1"
tokio = { version = "1", features = ["rt-multi-thread", "macros", "sync", "time", "fs"] }
tokio-tungstenite = { version = "0.24", features = ["rustls-tls-webpki-roots"] }

[package]
name = "b3_cli"
version = "0.1.0"
edition = "2021"
publish = false

[dependencies]
anyhow = "1"
argon2 = "0.5"
axum = { version = "0.7", features = ["ws", "multipart"] }
base64 = "0.22"
chacha20poly1305 = "0.10"
chrono = "0.4"
crossterm = "0.28"
dirs = "5"
eventsource-stream = "0.2"
futures-util = "0.3"
gethostname = "0.5"
hkdf = "0.12"
libc = "0.2"
portable-pty = "0.8"
rand = "0.8"
regex = "1"
reqwest = { version = "0.12", default-features = false, features = ["json", "stream", "multipart", "rustls-tls"] }
serde = { version = "1", features = ["derive"] }
serde_json = "1"
sha2 = "0.10"
tokio = { version = "1", features = ["full"] }
tokio-stream = { version = "0.1", features = ["sync"] }
tokio-tungstenite = { version = "0.24", features = ["rustls-tls-webpki-roots"] }
tower-http = { version = "0.6", features = ["cors", "fs"] }
tracing = "0.1"
tracing-subscriber = { version = "0.3", features = ["env-filter"] }
x25519-dalek = { version = "2", features = ["static_secrets"] }

[package]
name = "plato-agent"
version = "0.1.0"
edition = "2021"
publish = false

[dependencies]
clap = { version = "4", features = ["derive"] }
crossterm = "0.29"
platonic-core = "=0.1.0"
ratatui = "0.29"
rusqlite = { version = "0.37", features = ["bundled"] }
rustix = { version = "1", features = ["process"] }
serde = { version = "1", features = ["derive"] }
serde_json = "=1.0.154"
sha2 = "=0.10.9"
signal-hook = "0.3"
thiserror = "2"
toml = "0.9"
tungstenite = { version = "0.28", features = ["rustls-tls-webpki-roots"] }
ureq = { version = "2", features = ["json"] }
url = "=2.5.8"

[dev-dependencies]
tempfile = "3"

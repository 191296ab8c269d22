[package]
name = "zstore"
version = "0.1.0"
edition = "2021"
publish = false

[dependencies]
urlencoding = "=2.1.3"
sha2 = "=0.10.9"
hex = "=0.4.3"
regex = "=1.13.1"
serde = { version = "=1.0.229", features = ["derive"] }
serde_json = "=1.0.154"
toml = "=0.8.23"
reqwest = { version = "=0.12.28", default-features = false, features = ["json", "rustls-tls"] }
tokio = { version = "=1.54.1", features = ["rt-multi-thread", "macros", "time"] }
rusqlite = { version = "=0.31.0", features = ["bundled"] }
zip = { version = "2", default-features = false, features = ["deflate"] }
winreg = "0.52"

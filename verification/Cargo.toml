[package]
name = "uberbot"
version = "0.1.0"
edition = "2021"
publish = false

[dependencies]
anyhow = "=1.0.104"
arrayvec = "=0.7.8"
async-trait = "=0.1.92"
base64 = "=0.13.1"
ellipse = "=0.2.0"
fancy-regex = "=0.11.0"
futures-util = "=0.3.34"
htmlescape = "=0.3.1"
hyper = { version = "=0.14.32", features = ["server", "http1", "tcp"] }
irc = "=0.15.0"
meval = "=0.2.0"
rand = "=0.8.8"
regex = "=1.13.1"
reqwest = { version = "=0.11.27", features = ["json"] }
rspotify = "0.12"
rusqlite = { version = "=0.28.0", features = ["bundled"] }
sedregex = "=0.2.5"
serde = { version = "=1.0.229", features = ["derive"] }
serde_json = "=1.0.154"
tokio = { version = "=1.54.1", features = ["full"] }
toml = "=0.5.11"
tracing = "=0.1.44"
tracing-subscriber = "=0.3.23"

[package]
name = "openlogi"
version = "0.1.0"
edition = "2021"
publish = false

[dependencies]
anyhow = "=1.0.104"
appcatalog = "=0.1.1"
disclaim = "=0.1.1"
futures-concurrency = "=7.7.1"
hidpp = "=0.2.0"
image = "=0.25.10"
raw-window-handle = "=0.6.2"
serde = { version = "=1.0.229", features = ["derive"] }
serde_json = "=1.0.154"
succession = "=0.2.0"
swr-core = "=0.1.0"
sys-locale = "=0.3.2"
tarpc = { version = "=0.37.0", features = ["serde-transport", "serde-transport-bincode", "unix"] }
thiserror = "=2.0.21"
tokio = { version = "=1.54.1", features = ["macros", "net", "rt", "sync", "time"] }
tracing = "=0.1.44"
tracing-subscriber = { version = "=0.3.23", features = ["env-filter"] }
url = "=2.5.8"
x11rb = "=0.13.2"

[package]
name = "appmon"
version = "0.1.0"
edition = "2021"
publish = false

[dependencies]
anyhow = "=1.0.104"
async-trait = "=0.1.92"
axum = { version = "=0.7.9", features = ["ws"] }
bytes = "=1.12.1"
dioxus = { version = "=0.6.3", default-features = false, features = ["macro", "html", "signals"] }
dioxus-ssr = { version = "=0.6.2", default-features = false }
futures-util = "=0.3.34"
image = { version = "=0.25.10", default-features = false, features = ["jpeg", "png"] }
prost = "=0.13.5"
serde = { version = "=1.0.229", features = ["derive"] }
serde_json = "=1.0.154"
tempfile = "=3.27.0"
thiserror = "=1.0.69"
tokio = { version = "=1.54.1", features = ["full"] }
tonic = "=0.12.3"
tower-http = { version = "=0.5.2", features = ["trace"] }
tracing = "=0.1.44"
tracing-subscriber = { version = "=0.3.23", features = ["env-filter"] }
uuid = { version = "=1.29.0", features = ["v4", "serde"] }
webrtc = "=0.11.0"

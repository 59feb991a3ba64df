[package]
name = "openbrief"
version = "0.1.0"
edition = "2021"
publish = false

[dependencies]
time = { version = "=0.3.55", features = ["formatting", "parsing", "local-offset", "serde", "macros"] }
serde = { version = "=1.0.229", features = ["derive"] }
serde_json = "=1.0.154"
rusqlite = { version = "=0.41.1", features = ["bundled"] }
clap = { version = "=4.6.7", features = ["derive"] }
niri-ipc = "=26.4.0"
ctrlc = "=3.5.2"
directories = "=6.0.0"
toml = "=1.1.8"
tokio = { version = "=1.54.1", features = ["rt-multi-thread", "macros", "sync", "time", "process", "net", "io-std"] }
axum = { version = "=0.8.9", features = ["ws"] }
futures-util = { version = "=0.3.34", features = ["sink"] }
rmcp = { version = "=3.8.0", features = ["server", "macros", "transport-io"] }
agent-client-protocol = { version = "=5.0.0", features = ["process"] }
uuid = { version = "=1.29.0", features = ["v4", "serde"] }

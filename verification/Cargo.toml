[package]
name = "chezmoi"
version = "0.1.0"
edition = "2021"
publish = false

[dependencies]
indexmap = "2"
chrono = { version = "0.4", default-features = false, features = ["std", "clock"] }
serde = { version = "1", features = ["derive"] }
serde_json = "1"
anyhow = "1"
tokio = { version = "1", features = ["rt-multi-thread", "macros", "sync", "time"] }
tracing = "0.1"
tracing-subscriber = { version = "0.3", features = ["env-filter"] }
reqwest = { version = "0.12", default-features = false, features = ["json", "rustls-tls"] }
sysinfo = "*"
another-html-builder = "*"
human-number = "*"
plotters = { version = "0.3", default-features = false, features = ["svg_backend", "line_series"] }
futures = "0.3"
bluer = { version = "*", features = ["bluetoothd"] }
bluer-miflora = "*"

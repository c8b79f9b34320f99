[package]
name = "italic"
version = "0.1.0"
edition = "2021"
publish = false

[dependencies]
sha2 = "*"
data-encoding = "*"
unicode-segmentation = "*"
chrono = "*"
anyhow = "*"
serde = { version = "*", features = ["derive"] }
serde_json = "*"
serde_yaml_ng = "*"
clap = { version = "*", features = ["derive"] }
dotenvy = "*"
globset = "*"
walkdir = "*"
rayon = "*"
comrak = "*"
tera = "*"
atrium-api = "*"
atrium-xrpc-client = "*"
tokio = { version = "*", features = ["rt", "time"] }
notify-debouncer-mini = "*"

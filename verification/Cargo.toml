[package]
name = "typst-stdio-worker"
version = "0.1.0"
edition = "2021"
publish = false

[dependencies]
base64 = "*"
image = { version = "*", default-features = false, features = ["png"] }
serde = { version = "*", features = ["derive"] }
serde_json = "*"
clap = { version = "*", features = ["derive", "env"] }
chrono = "*"
comemo = "*"
flate2 = "*"
fontdb = "*"
memmap2 = "*"
signal-hook = "*"
tar = "*"
tracing = "*"
tracing-subscriber = { version = "*", features = ["env-filter"] }
typst = "*"
typst-layout = "*"
typst-render = "*"
ureq = "*"

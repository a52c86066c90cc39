[package]
name = "wordbase"
version = "0.1.0"
edition = "2021"
publish = false

[dependencies]
unicode-segmentation = "=1.13.3"
regex = "=1.13.1"
data-encoding = "=2.11.1"
html-escape = "=0.2.15"
serde = { version = "=1.0.229", features = ["derive"] }
serde_json = "=1.0.154"
maud = "=0.27.0"
indexmap = "=2.14.2"
foldhash = "=0.2.0"
anyhow = "=1.0.104"
futures = "=0.3.34"
tokio = { version = "=1.54.1", features = ["rt-multi-thread", "macros", "net", "sync"] }
tokio-tungstenite = "=0.30.0"
rustyline = "=19.0.0"
jmdict-furigana = "*"

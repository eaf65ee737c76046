[package]
name = "alx"
version = "0.3.0"
edition = "2021"
publish = false

[dependencies]
select = "=0.6.1"
slug = "=0.1.6"
serde_json = "=1.0.151"
chrono = "=0.4.45"
serde = { version = "=1.0.229", features = ["derive"] }
csv = "=1.4.0"
comfy-table = "=8.0.1"
clap = "=4.6.7"
reqwest = { version = "=0.13.5", default-features = false, features = ["blocking", "json", "query", "form"] }

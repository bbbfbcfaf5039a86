[package]
name = "my-sync"
version = "0.1.0"
edition = "2021"
publish = false

[dependencies]
sha2 = "=0.10.9"
chrono = "=0.4.45"
url = "=2.5.8"
percent-encoding = "=2.3.2"
httpdate = "=1.0.3"
serde = { version = "1", features = ["derive"] }
serde_json = "1"
quick-xml = { version = "0.38", features = ["serialize"] }
reqwest = "0.12"
tokio = { version = "1", features = ["sync", "time", "rt", "macros"] }
notify = "8"
log = "0.4"

[package]
name = "delta_core"
version = "0.1.0"
edition = "2021"
publish = false

[dependencies]
serde = { version = "1", features = ["derive"] }
serde_json = "1"
sha2 = "0.10"
url = "2"
uuid = { version = "1", features = ["v4"] }
thiserror = "1"
ureq = { version = "2", features = ["json"] }
rustls = "0.23"
webpki-roots = "0.26"

[dev-dependencies]
tempfile = "3"

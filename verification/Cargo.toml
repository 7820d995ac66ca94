[package]
name = "chonkit"
version = "0.1.0"
edition = "2021"
publish = false

[dependencies]
regex = "=1.13.1"
sha2 = "=0.10.9"
hex = "=0.4.3"
base64 = "=0.22.1"
calamine = "=0.38.0"
docx-rs = "=0.4.22"
tiktoken-rs = "=0.12.1"
image = { version = "=0.25.10", default-features = false, features = ["png", "jpeg", "webp", "gif"] }
pdfium-render = "=0.9.5"
serde = { version = "=1.0.229", features = ["derive"] }
serde_json = "=1.0.154"

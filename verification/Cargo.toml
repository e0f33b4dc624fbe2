[package]
name = "vitela"
version = "0.1.0"
edition = "2021"
publish = false

[dependencies]
base64 = "=0.22.1"
chrono = "=0.4.45"
const-oid = "=0.9.6"
der = "=0.7.10"
image = "=0.25.10"
lopdf = "=0.46.0"
pdfium-render = "=0.8.37"
quick-xml = "*"
serde = { version = "=1.0.229", features = ["derive"] }
serde_json = "=1.0.154"
sha1 = "=0.10.7"
x509-cert = "=0.2.5"

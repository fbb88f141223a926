[package]
name = "openscreen"
version = "0.1.0"
edition = "2021"
publish = false

[dependencies]
anyhow = "1"
async-stream = "0.3"
async-trait = "0.1"
base64 = "0.22"
clap = { version = "4", features = ["derive"] }
colored = "*"
futures = "0.3"
heapless = "0.8"
hex = "0.4"
hkdf = "0.12"
hmac = "0.12"
log = "0.4"
mdns-sd = "*"
minicbor = { version = "*", features = ["alloc"] }
pem = "3"
quinn = "0.11"
rcgen = { version = "0.13", features = ["pem"] }
rustls = "0.23"
sha2 = "0.10"
spake2 = "0.4"
subtle = "2"
thiserror = "2"
tokio = { version = "1", features = ["full"] }
tracing = "0.1"
tracing-subscriber = { version = "0.3", features = ["env-filter"] }
uuid = { version = "1", features = ["v4"] }
x509-parser = "0.16"
bytes = "1"

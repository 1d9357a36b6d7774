[package]
name = "codex_kit"
version = "0.1.0"
edition = "2021"
publish = false

[dependencies]
url = "=2.5.8"
shlex = "=1.3.0"
sha2 = "=0.10.9"
serde_json = "=1.0.154"
rama-http = "=0.2.0"
image = { version = "=0.25.10", default-features = false, features = ["jpeg", "png", "gif", "webp"] }
arboard = "3"
tempfile = "3"
tokio = { version = "1", features = ["rt"] }
tracing = "0.1"
async-trait = "0.1"

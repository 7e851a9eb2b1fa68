[package]
name = "fluffer"
version = "0.1.0"
edition = "2021"
publish = false

[dependencies]
anyhow = "*"
async-trait = "*"
log = "*"
mime_guess = "*"
openssl = "*"
rcgen = "0.11"
reqwest = "*"
sanitize-filename = "*"
thiserror = "*"
tokio = { version = "*", features = ["full"] }
tokio-openssl = "*"
trotter = "*"
url = "*"

[dev-dependencies]
matchit = "*"
urlencoding = "*"

[package]
name = "ropds"
version = "0.1.0"
edition = "2021"
publish = false

[dependencies]
mobi = "*"
quick-xml = "*"
zip = { version = "*", default-features = false, features = ["deflate"] }
sha2 = "*"
hmac = "*"
hex = "*"
base64 = "*"
argon2 = "*"
rand = "*"
urlencoding = "*"
image = { version = "*", default-features = false, features = ["jpeg", "png", "gif"] }
serde = { version = "1", features = ["derive"] }
serde_json = "1"
toml = "*"
clap = { version = "4", features = ["derive"] }
walkdir = "*"

[package]
name = "filesup_update"
version = "0.1.0"
edition = "2021"
publish = false

[dependencies]
url = "=2.5.8"
zip = { version = "=8.6.0", default-features = false, features = ["deflate"] }
serde_json = "=1.0.151"
sha2 = "*"

[dev-dependencies]
semver = "=1.0.28"

[package]
name = "foto"
version = "0.1.0"
edition = "2021"
publish = false

[dependencies]
anyhow = "=1.0.104"
base64 = "=0.13.1"
chrono = "=0.4.45"
futures = "=0.3.34"
image = "=0.23.14"
img_hash = "=3.2.0"
jsonwebtoken = "=7.2.0"
multer = "=3.1.0"
nanoid = "=0.4.0"
once_cell = "=1.21.4"
reqwest = { version = "0.12", default-features = false }
ring = "=0.16.20"
rocket = { version = "=0.5.2", features = ["json"] }
rusoto_core = { version = "0.48", default-features = false, features = ["rustls"] }
rusoto_s3 = { version = "0.48", default-features = false, features = ["rustls"] }
rusqlite = { version = "=0.29.0", features = ["bundled"] }
serde = { version = "=1.0.229", features = ["derive"] }
serde_json = { version = "=1.0.154", features = ["preserve_order"] }
sled-extensions = { version = "=0.2.0", features = ["bincode"] }
thiserror = "=1.0.69"

[dev-dependencies]
rand = "=0.8.8"

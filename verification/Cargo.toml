[package]
name = "extenddb-storage-mongodb"
version = "0.1.0"
edition = "2021"
publish = false

[dependencies]
aes-gcm = "0.10"
async-trait = "0.1"
base64 = "0.22"
bcrypt = "0.17"
bson = "2"
crc32fast = "1"
dashmap = "6"
futures = "0.3"
inventory = "0.3"
mongodb = "3"
rand = "0.9"
serde = { version = "1", features = ["derive"] }
serde_json = "1"
sqlx = { version = "0.8", default-features = false, features = ["runtime-tokio", "postgres"] }
time = { version = "0.3", features = ["formatting", "parsing"] }
tokio = { version = "1", features = ["rt-multi-thread", "macros", "sync", "time"] }
toml = "0.8"
tracing = "0.1"
uuid = { version = "1", features = ["v4"] }

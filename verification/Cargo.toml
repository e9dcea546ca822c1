[package]
name = "macsvc"
version = "0.1.0"
edition = "2021"
publish = false

[dependencies]
actix-governor = "*"
actix-identity = "0.4"
actix-session = "0.7"
actix-web = { version = "4", features = ["openssl"] }
argon2 = "0.5"
chrono = "0.4"
dotenv = "0.15"
futures-util = "0.3"
log = "0.4"
openssl = "0.10"
r2d2 = "0.8"
r2d2_sqlite = "*"
regex = "1"
reqwest = { version = "0.11", features = ["json"] }
rusqlite = "*"
serde = { version = "1", features = ["derive"] }
serde_json = "1"
tempfile = "3"

[package]
name = "admin_api"
version = "0.1.0"
edition = "2021"
publish = false

[dependencies]
actix-web = { version = "=3.3.3", default-features = false }
actix-service = "=1.0.6"
futures = "=0.3.34"
serde = { version = "=1.0.229", features = ["derive"] }
serde_json = { version = "=1.0.154", features = ["preserve_order"] }
bincode = "=1.3.3"
uuid = { version = "=0.8.2", features = ["serde", "v4"] }
rust-argon2 = "=0.8.3"
jsonwebtoken = "=7.2.0"
rocksdb = "=0.15.0"
dotenv = "=0.15.0"
log = "=0.4.35"
log4rs = { version = "=1.4.0", default-features = false, features = ["console_appender", "file_appender"] }
log-panics = "=2.1.0"
wasmer = "=2.3.0"
wasmer-compiler-cranelift = "=2.3.0"
wasmer-engine-universal = "=2.3.0"

[package]
name = "coster"
version = "0.1.0"
edition = "2021"
publish = false

[dependencies]
rust_decimal = "=1.43.0"
iso4217 = "=0.3.2"
nanoid = "=0.3.0"
uuid = { version = "=0.8.2", features = ["v4"] }
chrono = "=0.4.45"
arrayvec = "=0.5.2"
serde = { version = "=1.0.118", features = ["derive"] }
serde_json = "=1.0.60"
thiserror = "=1.0.69"
log = "=0.4.35"
pretty_env_logger = "=0.4.0"
tokio = { version = "=0.2.25", features = ["macros", "rt-threaded"] }
warp = "=0.2.5"
async-graphql = "=1.18.2"
async-graphql-warp = "=1.18.1"
mime_guess = "=2.0.5"

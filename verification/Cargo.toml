[package]
name = "fool_engine"
version = "0.1.0"
edition = "2021"
publish = false

[dependencies]
anyhow = "1"
bincode = "2"
bson = "2"
chrono = "0.4"
clap = { version = "4", features = ["derive"] }
directories = "5"
lazy_static = "1"
log = "0.4"
log4rs = "1"
mlua = { version = "0.10", features = ["lua54", "vendored", "serialize"] }
parking_lot = "0.12"
serde = { version = "1", features = ["derive"] }
toml = "0.8"
zip = { version = "2", default-features = false, features = ["deflate"] }
zstd = "0.13"

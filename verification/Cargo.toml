[package]
name = "redis_governor"
version = "0.1.0"
edition = "2021"
publish = false

[dependencies]
governor = { version = "*", default-features = false, features = ["std"] }
r2d2 = "*"
redis = { version = "*", default-features = false, features = ["r2d2"] }
siphasher = "*"

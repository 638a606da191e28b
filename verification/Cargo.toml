[package]
name = "redis_pool"
version = "0.1.0"
edition = "2021"
publish = false

[dependencies]
redis = "=0.20.2"
r2d2 = "=0.8.10"
r2d2_redis = "=0.14.0"
dotenv = "=0.15.0"

[package]
name = "adventskalender_backend"
version = "0.1.0"
edition = "2021"
publish = false

[dependencies]
bcrypt = "=0.19.3"
chrono = "=0.4.45"
dashmap = "=6.2.1"
healthchecks = "=3.3.0"
jsonwebtoken = "=9.3.1"
rand = "=0.10.3"
ring = "=0.17.14"
serde_json = "=1.0.151"

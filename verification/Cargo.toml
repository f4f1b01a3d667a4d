[package]
name = "linkr"
version = "0.1.0"
edition = "2021"
publish = false

[dependencies]
scrypt = "0.8"
rand_core = { version = "0.6", features = ["getrandom"] }
chrono = "0.4"
rocket = { version = "0.5", features = ["json", "secrets"] }
sqlx = { version = "0.6", default-features = false, features = ["postgres", "runtime-tokio-rustls", "chrono"] }
dotenv = "0.15"
